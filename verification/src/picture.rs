//! Decoded pictures, and turning and mirroring them.

use image::imageops;
use image::RgbaImage;
use vstd::prelude::*;

use crate::path::bytes_copy;

verus! {

/// A decoded picture: rows of pixels, each of four bytes.
#[derive(Debug, PartialEq, Eq)]
pub struct Picture {
    pub width: u32,
    pub height: u32,
    pub pixels: Vec<u8>,
}

impl Clone for Picture {
    fn clone(&self) -> (copy: Self)
        ensures
            copy.width == self.width,
            copy.height == self.height,
            copy.pixels@ == self.pixels@,
    {
        Picture { width: self.width, height: self.height, pixels: bytes_copy(&self.pixels) }
    }
}

impl Picture {
    /// Whether there are as many bytes as the width and height need.
    pub open spec fn sound(self) -> bool {
        self.pixels@.len() == 4 * self.width * self.height
    }

    /// One byte of a pixel.
    pub open spec fn byte(self, x: int, y: int, channel: int) -> u8 {
        self.pixels@[4 * (y * self.width + x) + channel]
    }
}

/// Where a turned or mirrored picture has the pixel that was at a place.
pub type Placement = spec_fn(int, int) -> (int, int);

/// Whether a picture has the pixels of another one, each at its new place.
pub open spec fn placed(from: Picture, to: Picture, place: Placement) -> bool {
    forall|x: int, y: int, channel: int|
        0 <= x < from.width && 0 <= y < from.height && 0 <= channel < 4 ==> to.byte(
            place(x, y).0,
            place(x, y).1,
            channel,
        ) == #[trigger] from.byte(x, y, channel)
}

/// `imageops::flip_horizontal` exchanges left and right.
#[verifier::external_body]
pub(crate) fn flip_horizontal(picture: Picture) -> (result: Picture)
    requires
        picture.sound(),
    ensures
        result.sound(),
        result.width == picture.width,
        result.height == picture.height,
        placed(picture, result, |x: int, y: int| (picture.width - 1 - x, y)),
{
    let source = RgbaImage::from_raw(picture.width, picture.height, picture.pixels).unwrap();
    let image = imageops::flip_horizontal(&source);
    Picture { width: image.width(), height: image.height(), pixels: image.into_raw() }
}

/// `imageops::flip_vertical` exchanges top and bottom.
#[verifier::external_body]
pub(crate) fn flip_vertical(picture: Picture) -> (result: Picture)
    requires
        picture.sound(),
    ensures
        result.sound(),
        result.width == picture.width,
        result.height == picture.height,
        placed(picture, result, |x: int, y: int| (x, picture.height - 1 - y)),
{
    let source = RgbaImage::from_raw(picture.width, picture.height, picture.pixels).unwrap();
    let image = imageops::flip_vertical(&source);
    Picture { width: image.width(), height: image.height(), pixels: image.into_raw() }
}

/// `imageops::rotate90` turns a picture clockwise by a quarter.
#[verifier::external_body]
pub(crate) fn rotate90(picture: Picture) -> (result: Picture)
    requires
        picture.sound(),
    ensures
        result.sound(),
        result.width == picture.height,
        result.height == picture.width,
        placed(picture, result, |x: int, y: int| (picture.height - 1 - y, x)),
{
    let source = RgbaImage::from_raw(picture.width, picture.height, picture.pixels).unwrap();
    let image = imageops::rotate90(&source);
    Picture { width: image.width(), height: image.height(), pixels: image.into_raw() }
}

/// `imageops::rotate180` turns a picture by a half.
#[verifier::external_body]
pub(crate) fn rotate180(picture: Picture) -> (result: Picture)
    requires
        picture.sound(),
    ensures
        result.sound(),
        result.width == picture.width,
        result.height == picture.height,
        placed(
            picture,
            result,
            |x: int, y: int| (picture.width - 1 - x, picture.height - 1 - y),
        ),
{
    let source = RgbaImage::from_raw(picture.width, picture.height, picture.pixels).unwrap();
    let image = imageops::rotate180(&source);
    Picture { width: image.width(), height: image.height(), pixels: image.into_raw() }
}

/// `imageops::rotate270` turns a picture counter-clockwise by a quarter.
#[verifier::external_body]
pub(crate) fn rotate270(picture: Picture) -> (result: Picture)
    requires
        picture.sound(),
    ensures
        result.sound(),
        result.width == picture.height,
        result.height == picture.width,
        placed(picture, result, |x: int, y: int| (y, picture.width - 1 - x)),
{
    let source = RgbaImage::from_raw(picture.width, picture.height, picture.pixels).unwrap();
    let image = imageops::rotate270(&source);
    Picture { width: image.width(), height: image.height(), pixels: image.into_raw() }
}

/// Placing pixels twice places them by both placements.
pub proof fn lemma_placed_twice(
    first: Picture,
    second: Picture,
    third: Picture,
    one: Placement,
    two: Placement,
    both: Placement,
)
    requires
        placed(first, second, one),
        placed(second, third, two),
        forall|x: int, y: int|
            0 <= x < first.width && 0 <= y < first.height ==> 0 <= (#[trigger] one(x, y)).0
                < second.width && 0 <= one(x, y).1 < second.height && both(x, y) == two(
                one(x, y).0,
                one(x, y).1,
            ),
    ensures
        placed(first, third, both),
{
    assert forall|x: int, y: int, channel: int|
        0 <= x < first.width && 0 <= y < first.height && 0 <= channel < 4 implies third.byte(
        both(x, y).0,
        both(x, y).1,
        channel,
    ) == #[trigger] first.byte(x, y, channel) by {
        let mid = one(x, y);
        assert(second.byte(mid.0, mid.1, channel) == first.byte(x, y, channel));
    }
}

} // verus!
