//! Pictures out of the contents of files, and pictures in other sizes.
//!
//! The registry in which the `image` crate looks for further formats is left empty.

use std::io::Cursor;

use fast_image_resize::images::Image;
use fast_image_resize::{PixelType, Resizer};
use image::imageops::FilterType;
use image::metadata::Orientation;
use image::{DynamicImage, ImageFormat, ImageReader, RgbaImage};
use vstd::prelude::*;

use crate::metadata::swaps_axes;
use crate::numbers::most;
use crate::picture::Picture;
use crate::text::{lowercase, same_text, text_of, to_lowercase};

verus! {

/// The width, the height and the bytes of a picture.
pub type PictureParts = (u32, u32, Seq<u8>);

impl Picture {
    /// The width, the height and the bytes of the picture.
    pub open spec fn parts(self) -> PictureParts {
        (self.width, self.height, self.pixels@)
    }
}

/// The contents of an optional picture.
pub open spec fn picture_of(picture: Option<Picture>) -> Option<PictureParts> {
    match picture {
        Some(picture) => Some(picture.parts()),
        None => None,
    }
}

/// The usual extension of the image format that the content of a file starts like.
pub uninterp spec fn guessed_extension(content: Seq<u8>) -> Option<Seq<char>>;

/// The width and height of the image in the content of a file, in the format that an
/// extension names.
pub uninterp spec fn dimensions_as(content: Seq<u8>, extension: Seq<char>) -> Option<(u32, u32)>;

/// The picture in the content of a file, in the format that an extension names.
pub uninterp spec fn decoded_as(content: Seq<u8>, extension: Seq<char>) -> Option<
    (u32, u32, Seq<u8>),
>;

/// A picture scaled to fit into a size, its proportions kept.
pub uninterp spec fn resized_within(
    width: u32,
    height: u32,
    pixels: Seq<u8>,
    max_width: u32,
    max_height: u32,
) -> (u32, u32, Seq<u8>);

/// The picture in the content of a file, in the format that an extension names, turned
/// as an EXIF orientation says and then scaled to fit into a size, its proportions kept.
pub uninterp spec fn shrunk_as(
    content: Seq<u8>,
    extension: Seq<char>,
    orientation: u8,
    max_width: u32,
    max_height: u32,
) -> Option<(u32, u32, Seq<u8>)>;

/// Whether a size is another one scaled down to fit into some limits: both sides fit and
/// have a pixel at least, and the side that the limits press more has all that its limit
/// allows.
pub open spec fn fills(
    width: int,
    height: int,
    max_width: u32,
    max_height: u32,
    result: (u32, u32),
) -> bool {
    &&& 1 <= result.0 <= most(max_width as int, 1)
    &&& 1 <= result.1 <= most(max_height as int, 1)
    &&& max_width * height <= max_height * width ==> result.0 == most(max_width as int, 1)
    &&& max_height * width <= max_width * height ==> result.1 == most(max_height as int, 1)
}

/// `image::guess_format`, and the first of `ImageFormat::extensions_str`. The result
/// depends on the content alone.
#[verifier::external_body]
fn guess_extension(content: &Vec<u8>) -> (extension: Option<String>)
    ensures
        text_of(extension) == guessed_extension(content@),
{
    let format = image::guess_format(content).ok()?;
    format.extensions_str().first().map(|extension| extension.to_string())
}

/// `ImageFormat::from_extension` and `ImageReader::into_dimensions`. The result depends
/// on the content and the extension alone.
#[verifier::external_body]
fn read_dimensions(content: &Vec<u8>, extension: &str) -> (dimensions: Option<(u32, u32)>)
    ensures
        dimensions == dimensions_as(content@, extension@),
{
    let format = ImageFormat::from_extension(extension)?;
    let reader = ImageReader::with_format(Cursor::new(content.as_slice()), format);
    reader.into_dimensions().ok()
}

/// `ImageFormat::from_extension` and `ImageReader::decode`, then
/// `DynamicImage::into_rgba8`. The result depends on the content and the extension
/// alone, and has four bytes for each pixel.
#[verifier::external_body]
pub(crate) fn decode_as(content: &Vec<u8>, extension: &str) -> (picture: Option<Picture>)
    ensures
        picture_of(picture) == decoded_as(content@, extension@),
        picture matches Some(picture) ==> picture.sound(),
{
    let format = ImageFormat::from_extension(extension)?;
    let reader = ImageReader::with_format(Cursor::new(content.as_slice()), format);
    let image = reader.decode().ok()?.into_rgba8();
    Some(Picture { width: image.width(), height: image.height(), pixels: image.into_raw() })
}

/// The extension of the format that a file is in: the one that its content starts like,
/// else the one that its own extension names.
pub open spec fn format_extension(content: Seq<u8>, extension: Seq<char>) -> Seq<char> {
    chosen_extension(guessed_extension(content), extension)
}

/// The guessed extension, where there is one, else a file's own.
pub open spec fn chosen_extension(guessed: Option<Seq<char>>, extension: Seq<char>) -> Seq<char> {
    match guessed {
        Some(guessed) => guessed,
        None => extension,
    }
}

/// Picks the guessed extension, where there is one, else a file's own.
pub fn pick_extension(guessed: Option<String>, extension: &str) -> (picked: String)
    ensures
        picked@ == chosen_extension(text_of(guessed), extension@),
{
    match guessed {
        Some(guessed) => guessed,
        None => extension.to_owned(),
    }
}

/// The extension of the format that a file is in.
pub fn find_extension(content: &Vec<u8>, extension: &str) -> (found: String)
    ensures
        found@ == format_extension(content@, extension@),
{
    pick_extension(guess_extension(content), extension)
}

/// Whether an extension names JPEG.
pub open spec fn jpeg_extension(extension: Seq<char>) -> bool {
    let lower = lowercase(extension);
    lower == "jpg"@ || lower == "jpeg"@ || lower == "jfif"@
}

/// Whether an extension names JPEG.
pub fn names_jpeg(extension: &str) -> (jpeg: bool)
    ensures
        jpeg == jpeg_extension(extension@),
{
    let lower = to_lowercase(extension);
    same_text(lower.as_str(), "jpg") || same_text(lower.as_str(), "jpeg") || same_text(
        lower.as_str(),
        "jfif",
    )
}

/// Whether the content of a file is a JPEG; its extension decides where the content
/// tells nothing.
pub open spec fn jpeg_content(content: Seq<u8>, extension: Seq<char>) -> bool {
    jpeg_extension(format_extension(content, extension))
}

/// Whether the content of a file is a JPEG.
pub fn is_jpeg(content: &Vec<u8>, extension: &str) -> (jpeg: bool)
    ensures
        jpeg == jpeg_content(content@, extension@),
{
    names_jpeg(find_extension(content, extension).as_str())
}

/// The width and height of the image in the content of a file; its extension decides
/// on the format where the content tells nothing.
pub open spec fn content_dimensions(content: Seq<u8>, extension: Seq<char>) -> Option<(u32, u32)> {
    dimensions_as(content, format_extension(content, extension))
}

/// The width and height of the image in the content of a file.
pub fn dimensions_in(content: &Vec<u8>, extension: &str) -> (dimensions: Option<(u32, u32)>)
    ensures
        dimensions == content_dimensions(content@, extension@),
{
    read_dimensions(content, find_extension(content, extension).as_str())
}

/// The picture in the content of a file; its extension decides on the format where the
/// content tells nothing.
pub open spec fn decoded_content(content: Seq<u8>, extension: Seq<char>) -> Option<PictureParts> {
    decoded_as(content, format_extension(content, extension))
}

/// The picture in the content of a file.
pub fn decode_content(content: &Vec<u8>, extension: &str) -> (picture: Option<Picture>)
    ensures
        picture_of(picture) == decoded_content(content@, extension@),
        picture matches Some(picture) ==> picture.sound(),
{
    decode_as(content, find_extension(content, extension).as_str())
}

/// `DynamicImage::resize` with a triangle filter, on a picture that is larger than the
/// size that it is to fit into. The result depends on the picture and the size alone.
/// It fits into the size, but for sides of no pixels, and fills it in one direction.
#[verifier::external_body]
pub(crate) fn shrink(picture: Picture, max_width: u32, max_height: u32) -> (result: Picture)
    requires
        picture.sound(),
        picture.width > max_width || picture.height > max_height,
    ensures
        result.parts() == resized_within(
            picture.width,
            picture.height,
            picture.pixels@,
            max_width,
            max_height,
        ),
        result.sound(),
        fills(
            picture.width as int,
            picture.height as int,
            max_width,
            max_height,
            (result.width, result.height),
        ),
{
    let source = RgbaImage::from_raw(picture.width, picture.height, picture.pixels).unwrap();
    let image = DynamicImage::ImageRgba8(source);
    let image = image.resize(max_width, max_height, FilterType::Triangle).into_rgba8();
    Picture { width: image.width(), height: image.height(), pixels: image.into_raw() }
}

/// `ImageFormat::from_extension` and `ImageReader::decode`, then
/// `DynamicImage::apply_orientation`, `DynamicImage::resize` with a triangle filter, and
/// `DynamicImage::into_rgba8`, on an image whose turned size is above the limits. The
/// result depends on the arguments alone, and there is one where the content can be
/// decoded. It fits into the limits, but for sides of no pixels, and fills them in one
/// direction.
#[verifier::external_body]
fn decode_shrunk_as(
    content: &Vec<u8>,
    extension: &str,
    orientation: u8,
    max_width: u32,
    max_height: u32,
) -> (picture: Option<Picture>)
    requires
        1 <= orientation <= 8,
        dimensions_as(content@, extension@) matches Some(size) && exceeds(
            turned_size(size, orientation as u16),
            max_width,
            max_height,
        ),
    ensures
        picture_of(picture) == shrunk_as(
            content@,
            extension@,
            orientation,
            max_width,
            max_height,
        ),
        picture is Some <==> decoded_as(content@, extension@) is Some,
        picture matches Some(picture) ==> picture.sound(),
        match picture {
            Some(picture) => {
                let size = dimensions_as(content@, extension@).unwrap();
                fills(
                    turned_size(size, orientation as u16).0 as int,
                    turned_size(size, orientation as u16).1 as int,
                    max_width,
                    max_height,
                    (picture.width, picture.height),
                )
            },
            None => true,
        },
{
    let format = ImageFormat::from_extension(extension)?;
    let reader = ImageReader::with_format(Cursor::new(content.as_slice()), format);
    let mut image = reader.decode().ok()?;
    image.apply_orientation(Orientation::from_exif(orientation)?);
    let image = image.resize(max_width, max_height, FilterType::Triangle).into_rgba8();
    Some(Picture { width: image.width(), height: image.height(), pixels: image.into_raw() })
}

/// The size of an image after it was turned as an orientation says.
pub open spec fn turned_size(size: (u32, u32), orientation: u16) -> (u32, u32) {
    if swaps_axes(orientation) {
        (size.1, size.0)
    } else {
        size
    }
}

/// Whether a size does not fit into some limits.
pub open spec fn exceeds(size: (u32, u32), max_width: u32, max_height: u32) -> bool {
    size.0 > max_width || size.1 > max_height
}

/// The number by which an orientation is known; a number that stands for none leaves a
/// picture as it is.
pub open spec fn exif_number(orientation: Option<u16>) -> u8 {
    match orientation {
        Some(value) => if 1 <= value && value <= 8 {
            value as u8
        } else {
            1
        },
        None => 1,
    }
}

/// The picture in the content of a file, turned and scaled to fit into a size; its
/// extension decides on the format where the content tells nothing.
pub open spec fn shrunk_content(
    content: Seq<u8>,
    extension: Seq<char>,
    orientation: Option<u16>,
    max_width: u32,
    max_height: u32,
) -> Option<PictureParts> {
    shrunk_as(
        content,
        format_extension(content, extension),
        exif_number(orientation),
        max_width,
        max_height,
    )
}

/// The picture in the content of a file, turned as an orientation says and then scaled
/// to fit into a size, in the colours of the file.
pub(crate) fn decode_shrunk(
    content: &Vec<u8>,
    extension: &str,
    orientation: Option<u16>,
    max_width: u32,
    max_height: u32,
) -> (picture: Option<Picture>)
    requires
        content_dimensions(content@, extension@) matches Some(size) && exceeds(
            turned_size(size, exif_number(orientation) as u16),
            max_width,
            max_height,
        ),
    ensures
        picture_of(picture) == shrunk_content(
            content@,
            extension@,
            orientation,
            max_width,
            max_height,
        ),
        picture is Some <==> decoded_content(content@, extension@) is Some,
        picture matches Some(picture) ==> picture.sound(),
        match picture {
            Some(picture) => {
                let size = content_dimensions(content@, extension@).unwrap();
                fills(
                    turned_size(size, exif_number(orientation) as u16).0 as int,
                    turned_size(size, exif_number(orientation) as u16).1 as int,
                    max_width,
                    max_height,
                    (picture.width, picture.height),
                )
            },
            None => true,
        },
{
    let number: u8 = match orientation {
        Some(value) => if 1 <= value && value <= 8 {
            value as u8
        } else {
            1
        },
        None => 1,
    };
    let found = find_extension(content, extension);
    decode_shrunk_as(content, found.as_str(), number, max_width, max_height)
}

/// `Resizer::resize` to a size that is not larger. A picture that has the size already
/// is copied. Nothing is said of the pixels otherwise: the filter is computed with
/// sines, which may differ between machines.
#[verifier::external_body]
pub(crate) fn resample(picture: Picture, width: u32, height: u32) -> (result: Picture)
    requires
        picture.sound(),
        width <= most(picture.width as int, 1),
        height <= most(picture.height as int, 1),
    ensures
        result.sound(),
        result.width == width,
        result.height == height,
        picture.width == width && picture.height == height ==> result.pixels@ == picture.pixels@,
{
    let source = RgbaImage::from_raw(picture.width, picture.height, picture.pixels).unwrap();
    let mut scaled = Image::new(width, height, PixelType::U8x4);
    Resizer::new().resize(&DynamicImage::ImageRgba8(source), &mut scaled, None).unwrap();
    Picture { width, height, pixels: scaled.into_vec() }
}

/// What a file holds decides on its format, whatever it is called; its own extension does
/// where the content tells nothing. The usual extensions of JPEG name it, in any case.
pub proof fn law_content_decides_on_the_format(guessed: Seq<char>, extension: Seq<char>)
    ensures
        chosen_extension(Some(guessed), extension) == guessed,
        chosen_extension(None, extension) == extension,
        lowercase(extension) == "jpg"@ || lowercase(extension) == "jpeg"@ ==> jpeg_extension(
            extension,
        ),
        lowercase(extension) == "png"@ || lowercase(extension) == "gif"@ || lowercase(extension)
            == "webp"@ ==> !jpeg_extension(extension),
{
    reveal_strlit("jpg");
    reveal_strlit("jpeg");
    reveal_strlit("jfif");
    reveal_strlit("png");
    reveal_strlit("gif");
    reveal_strlit("webp");
    assert("png"@[0] == 'p' && "gif"@[0] == 'g' && "webp"@[0] == 'w');
    assert("jpg"@[0] == 'j' && "jpeg"@[0] == 'j' && "jfif"@[0] == 'j');
}

} // verus!
