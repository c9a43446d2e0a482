//! Decoding images: how much memory that may take, how far a JPEG is scaled down
//! while it is decoded, and what comes out.
//!
//! The scaled decode of JPEGs is outside; what it gave comes in as an argument.

use vstd::prelude::*;

use crate::binary::{
    lemma_quotient_error, lemma_scaled_by_one, lemma_scaled_does_not_grow, lemma_scaled_fits,
    lemma_whole_is_exact, lemma_whole_is_ordinary, ordinary, quotient, scaled, unit, whole,
    Binary, HIGH, VAST,
};
use crate::codec::{
    content_dimensions, decode_as, decode_content, decode_shrunk, decoded_as, decoded_content,
    dimensions_in, exif_number, is_jpeg, jpeg_content, resized_within, shrink, shrunk_content,
    turned_size, PictureParts,
};
use crate::metadata;
use crate::metadata::{apply_orientation, read_exif_metadata};
use crate::numbers::{least, max_usize, most};
use crate::picture::Picture;

verus! {

/// The most bytes that decoding one image may hold at a time: 512 MiB.
pub const MAX_RGBA_DECODE_BYTES: usize = 536_870_912;

/// Decoding an image would hold more than [`MAX_RGBA_DECODE_BYTES`].
#[derive(Debug, Clone, Copy, PartialEq, Eq, Structural)]
pub struct DecodeSafetyLimit;

impl DecodeSafetyLimit {
    /// The message of the error.
    pub fn message(&self) -> (text: &'static str)
        ensures
            text@ == "image decode would exceed the 512 MiB safety limit"@,
    {
        "image decode would exceed the 512 MiB safety limit"
    }
}

/// Four bytes for each pixel, where that is within the limit.
pub fn checked_rgba_len(width: usize, height: usize) -> (len: Result<usize, DecodeSafetyLimit>)
    ensures
        match len {
            Ok(len) => len == 4 * width * height && len <= MAX_RGBA_DECODE_BYTES,
            Err(_) => 4 * width * height > MAX_RGBA_DECODE_BYTES,
        },
{
    proof {
        assert(0 <= width * height <= 0xffff_ffff_ffff_ffff * 0xffff_ffff_ffff_ffff)
            by (nonlinear_arith)
            requires
                0 <= width <= 0xffff_ffff_ffff_ffff,
                0 <= height <= 0xffff_ffff_ffff_ffff,
        ;
        assert(4 * width * height == 4 * (width * height)) by (nonlinear_arith);
    }
    let pixels: u128 = (width as u128) * (height as u128);
    if pixels > MAX_RGBA_DECODE_BYTES as u128 {
        return Err(DecodeSafetyLimit);
    }
    let len: usize = pixels as usize * 4;
    if len > MAX_RGBA_DECODE_BYTES {
        return Err(DecodeSafetyLimit);
    }
    Ok(len)
}

/// The sum of what a decode holds at a time, where that is within the limit.
pub fn checked_decode_reservation(parts: [usize; 3]) -> (sum: Result<usize, DecodeSafetyLimit>)
    ensures
        match sum {
            Ok(sum) => sum == parts@[0] + parts@[1] + parts@[2] && sum <= MAX_RGBA_DECODE_BYTES,
            Err(_) => parts@[0] + parts@[1] + parts@[2] > MAX_RGBA_DECODE_BYTES,
        },
{
    let sum: u128 = parts[0] as u128 + parts[1] as u128 + parts[2] as u128;
    if sum > MAX_RGBA_DECODE_BYTES as u128 {
        return Err(DecodeSafetyLimit);
    }
    Ok(sum as usize)
}

/// The number by which a size is scaled down to fit into another one, its proportions
/// kept.
pub open spec fn fit_scale(width: int, height: int, max_width: int, max_height: int) -> int {
    least(
        least(quotient(whole(max_width), width), quotient(whole(max_height), height)),
        whole(1),
    )
}

/// A size scaled down to fit into another one, its proportions kept: each side is
/// rounded to the nearest pixel, and has at least one.
pub open spec fn contained(width: int, height: int, max_width: int, max_height: int) -> (int, int) {
    let w = whole(most(width, 1));
    let h = whole(most(height, 1));
    let scale = fit_scale(w, h, most(max_width, 1), most(max_height, 1));
    (
        most(least(scaled(w, scale), u32::MAX as int), 1),
        most(least(scaled(h, scale), u32::MAX as int), 1),
    )
}

/// A size scaled down to fit into another one, its proportions kept.
pub fn contained_dimensions(width: usize, height: usize, max_width: u32, max_height: u32) -> (size:
    (u32, u32))
    ensures
        (size.0 as int, size.1 as int) == contained(
            width as int,
            height as int,
            max_width as int,
            max_height as int,
        ),
{
    let w = Binary::from_whole(max_usize(width, 1) as u128);
    let h = Binary::from_whole(max_usize(height, 1) as u128);
    let across = Binary::from_whole(at_least_one(max_width) as u128).quotient(w);
    let down = Binary::from_whole(at_least_one(max_height) as u128).quotient(h);
    let scale = across.least(down).least(Binary::from_whole(1));
    (at_least_one(w.product(scale).to_u32()), at_least_one(h.product(scale).to_u32()))
}

fn at_least_one(n: u32) -> (result: u32)
    ensures
        result == most(n as int, 1),
{
    if n == 0 {
        1
    } else {
        n
    }
}

/// A length in pixels is an ordinary number, and one that is not beyond all that a side
/// of a picture can have is exact.
proof fn lemma_length(n: int)
    requires
        1 <= n <= u64::MAX,
    ensures
        ordinary(whole(n)),
        unit() > 0,
        n <= u32::MAX ==> whole(n) == n * unit(),
        n > u32::MAX ==> whole(n) >= (u32::MAX + 1) * unit(),
{
    lemma_whole_is_ordinary(n);
    if n < HIGH {
        lemma_whole_is_exact(n);
        if n > u32::MAX {
            assert(n * unit() >= (u32::MAX + 1) * unit()) by (nonlinear_arith)
                requires
                    n >= u32::MAX + 1,
                    unit() >= 0,
            ;
        }
    } else {
        assert(whole(n) >= (u32::MAX + 1) * unit()) by (nonlinear_arith)
            requires
                whole(n) * HIGH >= n * unit() * (HIGH - 1),
                n >= HIGH,
                unit() > 0,
        ;
    }
}

/// How a side is scaled by what makes it fit into a limit, and by one.
proof fn lemma_side(n: int, limit: int, scale: int)
    requires
        1 <= n <= u64::MAX,
        1 <= limit <= u32::MAX,
        scale <= quotient(whole(limit), whole(n)),
        scale <= unit(),
        scale * (16 * VAST) >= unit(),
    ensures
        0 <= scaled(whole(n), scale) <= limit,
        scaled(whole(n), scale) <= n,
        scale == quotient(whole(limit), whole(n)) ==> scaled(whole(n), scale) == limit,
{
    lemma_length(n);
    lemma_whole_is_exact(limit);
    lemma_scaled_fits(limit, whole(n), whole(n), scale);
    if n <= u32::MAX {
        lemma_scaled_does_not_grow(n, scale);
    }
}

/// What makes a side fit into a limit: less than one where it is longer, else one or next
/// to it.
proof fn lemma_side_scale(n: int, limit: int)
    requires
        1 <= n <= u64::MAX,
        1 <= limit <= u32::MAX,
    ensures
        quotient(whole(limit), whole(n)) * (16 * VAST) >= unit(),
        n > limit ==> quotient(whole(limit), whole(n)) < unit(),
        n <= limit ==> quotient(whole(limit), whole(n)) * HIGH >= unit() * (HIGH - 1),
{
    let u = unit();
    let h = HIGH as int;
    lemma_length(n);
    lemma_length(1);
    lemma_whole_is_exact(limit);
    let y = whole(n);
    let q = quotient(limit * u, y);
    lemma_quotient_error(limit, y);
    if n > limit {
        assert(y >= (limit + 1) * u) by (nonlinear_arith)
            requires
                n <= u32::MAX ==> y == n * u,
                n > u32::MAX ==> y >= (u32::MAX + 1) * u,
                n >= limit + 1,
                limit <= u32::MAX,
                u > 0,
        ;
        assert(q < u) by (nonlinear_arith)
            requires
                q * y * h <= limit * u * u * (h + 1),
                y >= (limit + 1) * u,
                1 <= limit <= u32::MAX,
                h == 0x20_0000_0000_0000,
                u > 0,
        ;
    } else {
        assert(q * h >= u * (h - 1)) by (nonlinear_arith)
            requires
                q * y * h >= limit * u * u * (h - 1),
                y == n * u,
                1 <= n <= limit,
                h > 1,
                u > 0,
        ;
    }
}

/// A size that was scaled down fits, and one that fits is not changed.
pub proof fn law_contained_size_fits(width: int, height: int, max_width: int, max_height: int)
    requires
        1 <= width <= u64::MAX,
        1 <= height <= u64::MAX,
        1 <= max_width <= u32::MAX,
        1 <= max_height <= u32::MAX,
    ensures
        1 <= contained(width, height, max_width, max_height).0 <= max_width,
        1 <= contained(width, height, max_width, max_height).1 <= max_height,
        width <= max_width && height <= max_height ==> contained(
            width,
            height,
            max_width,
            max_height,
        ) == (width, height),
        !(width <= max_width && height <= max_height) ==> contained(
            width,
            height,
            max_width,
            max_height,
        ).0 == max_width || contained(width, height, max_width, max_height).1 == max_height,
        contained(width, height, max_width, max_height).0 <= width,
        contained(width, height, max_width, max_height).1 <= height,
{
    let (w, h) = (whole(width), whole(height));
    let scale = fit_scale(w, h, max_width, max_height);
    lemma_whole_is_exact(1);
    lemma_side_scale(width, max_width);
    lemma_side_scale(height, max_height);
    assert(unit() * (16 * VAST) >= unit()) by (nonlinear_arith)
        requires
            unit() >= 0,
    ;
    lemma_length(1);
    lemma_side(width, max_width, scale);
    lemma_side(height, max_height, scale);
    if width <= max_width && height <= max_height {
        assert(unit() * HIGH >= unit() * (HIGH - 1)) by (nonlinear_arith)
            requires
                unit() >= 0,
        ;
        lemma_length(width);
        lemma_length(height);
        lemma_scaled_by_one(width, scale);
        lemma_scaled_by_one(height, scale);
    }
}

/// A fraction by which a JPEG can be scaled while it is decoded.
#[derive(Debug, Clone, Copy, PartialEq, Eq, Structural)]
pub struct ScalingFactor {
    pub num: usize,
    pub denom: usize,
}

impl ScalingFactor {
    /// Whether the fraction makes nothing larger.
    pub open spec fn shrinks(self) -> bool {
        0 < self.denom && self.num <= self.denom
    }

    /// A dimension scaled by the fraction, rounded up.
    pub open spec fn scaled(self, dimension: int) -> int {
        (dimension * self.num + self.denom - 1) / (self.denom as int)
    }

    /// A dimension scaled by the fraction, rounded up.
    pub fn scale(&self, dimension: usize) -> (result: usize)
        requires
            self.shrinks(),
        ensures
            result == self.scaled(dimension as int),
            result <= dimension,
    {
        let ghost num = self.num as int;
        let ghost denom = self.denom as int;
        proof {
            assert(0 <= dimension * num <= dimension * denom) by (nonlinear_arith)
                requires
                    0 <= num <= denom,
                    0 <= dimension,
            ;
            assert(dimension * denom + denom <= 0xffff_ffff_ffff_ffff * 0xffff_ffff_ffff_ffff
                + 0xffff_ffff_ffff_ffff) by (nonlinear_arith)
                requires
                    0 <= dimension <= 0xffff_ffff_ffff_ffff,
                    0 <= denom <= 0xffff_ffff_ffff_ffff,
            ;
            let top = dimension * num + denom - 1;
            vstd::arithmetic::div_mod::lemma_div_is_ordered(
                top,
                dimension * denom + denom - 1,
                denom,
            );
            assert((dimension * denom + denom - 1) / denom == dimension) by (nonlinear_arith)
                requires
                    denom > 0,
                    dimension >= 0,
            ;
            vstd::arithmetic::div_mod::lemma_div_pos_is_pos(top, denom);
        }
        let scaled: u128 = ((dimension as u128) * (self.num as u128) + self.denom as u128 - 1)
            / (self.denom as u128);
        scaled as usize
    }
}

/// The size that a scaled image has to cover: the target, but no more than there
/// is, and at least one pixel.
pub open spec fn wanted(target: u32, dimension: usize) -> int {
    least(most(target as int, 1), most(dimension as int, 1))
}

/// Whether a fraction shrinks an image to something that covers the target.
pub open spec fn covers(
    factor: ScalingFactor,
    width: usize,
    height: usize,
    target_width: u32,
    target_height: u32,
) -> bool {
    factor.num <= factor.denom && factor.scaled(width as int) >= wanted(target_width, width)
        && factor.scaled(height as int) >= wanted(target_height, height)
}

/// The number of pixels of a scaled image, as far as it fits into a word.
pub open spec fn scaled_pixels(factor: ScalingFactor, width: usize, height: usize) -> int {
    least(factor.scaled(width as int) * factor.scaled(height as int), usize::MAX as int)
}

/// The fraction without effect.
pub open spec fn unscaled() -> ScalingFactor {
    ScalingFactor { num: 1, denom: 1 }
}

proof fn lemma_unscaled(dimension: int)
    ensures
        unscaled().scaled(dimension) == dimension,
{
    let factor = unscaled();
    assert(dimension * factor.num + factor.denom - 1 == dimension) by (nonlinear_arith)
        requires
            factor.num == 1,
            factor.denom == 1,
    ;
    assert(dimension / 1 == dimension) by (nonlinear_arith);
}

/// Among the first `count` fractions, the first that covers the target with the
/// fewest pixels; the one without effect where none has fewer.
pub open spec fn best_factor(
    supported: Seq<ScalingFactor>,
    width: usize,
    height: usize,
    target_width: u32,
    target_height: u32,
    count: nat,
) -> ScalingFactor
    decreases count,
{
    if count == 0 {
        unscaled()
    } else {
        let front = best_factor(
            supported,
            width,
            height,
            target_width,
            target_height,
            (count - 1) as nat,
        );
        let factor = supported[count - 1];
        if covers(factor, width, height, target_width, target_height) && scaled_pixels(
            factor,
            width,
            height,
        ) < scaled_pixels(front, width, height) {
            factor
        } else {
            front
        }
    }
}

/// Picks the fraction that shrinks an image the most while the result still covers
/// the target in both axes.
pub fn pick_scaling_factor(
    width: usize,
    height: usize,
    target_width: u32,
    target_height: u32,
    supported: &Vec<ScalingFactor>,
) -> (best: ScalingFactor)
    requires
        forall|i: int| 0 <= i < supported@.len() ==> 0 < (#[trigger] supported@[i]).denom,
    ensures
        best == best_factor(
            supported@,
            width,
            height,
            target_width,
            target_height,
            supported@.len(),
        ),
        best.shrinks(),
{
    let wanted_width: usize = crate::numbers::min_usize(
        crate::numbers::max_usize(target_width as usize, 1),
        crate::numbers::max_usize(width, 1),
    );
    let wanted_height: usize = crate::numbers::min_usize(
        crate::numbers::max_usize(target_height as usize, 1),
        crate::numbers::max_usize(height, 1),
    );
    let mut best = ScalingFactor { num: 1, denom: 1 };
    let mut best_pixels: usize = crate::numbers::saturating_product(width, height);
    proof {
        lemma_unscaled(width as int);
        lemma_unscaled(height as int);
    }
    let mut index: usize = 0;
    while index < supported.len()
        invariant
            forall|i: int| 0 <= i < supported@.len() ==> 0 < (#[trigger] supported@[i]).denom,
            index <= supported@.len(),
            wanted_width == wanted(target_width, width),
            wanted_height == wanted(target_height, height),
            best == best_factor(
                supported@,
                width,
                height,
                target_width,
                target_height,
                index as nat,
            ),
            best.shrinks(),
            best_pixels == scaled_pixels(best, width, height),
        decreases supported@.len() - index,
    {
        let factor = supported[index];
        if factor.num <= factor.denom {
            let scaled_width: usize = factor.scale(width);
            let scaled_height: usize = factor.scale(height);
            if scaled_width >= wanted_width && scaled_height >= wanted_height {
                let pixels: usize = crate::numbers::saturating_product(
                    scaled_width,
                    scaled_height,
                );
                if pixels < best_pixels {
                    best_pixels = pixels;
                    best = factor;
                }
            }
        }
        index += 1;
    }
    best
}

/// The fraction that is picked never makes an image smaller than the target, and
/// none that is supported does with fewer pixels.
pub proof fn law_picked_factor_covers_target(
    supported: Seq<ScalingFactor>,
    width: usize,
    height: usize,
    target_width: u32,
    target_height: u32,
    count: nat,
)
    requires
        count <= supported.len(),
        width > 0,
        height > 0,
    ensures
        covers(
            best_factor(supported, width, height, target_width, target_height, count),
            width,
            height,
            target_width,
            target_height,
        ),
        forall|i: int|
            0 <= i < count && covers(
                #[trigger] supported[i],
                width,
                height,
                target_width,
                target_height,
            ) ==> scaled_pixels(
                best_factor(supported, width, height, target_width, target_height, count),
                width,
                height,
            ) <= scaled_pixels(supported[i], width, height),
    decreases count,
{
    if count > 0 {
        law_picked_factor_covers_target(
            supported,
            width,
            height,
            target_width,
            target_height,
            (count - 1) as nat,
        );
    } else {
        lemma_unscaled(width as int);
        lemma_unscaled(height as int);
    }
}

/// What is known of an image before it is decoded.
#[derive(Debug, Clone, Copy, PartialEq, Eq, Structural)]
pub struct ImageHeader {
    pub width: u32,
    pub height: u32,
    pub is_jpeg: bool,
}

/// The size of the encoded file; nothing where it is unknown or no length here.
pub open spec fn encoded_size(len: Option<u64>) -> int {
    match len {
        Some(len) => if len <= usize::MAX {
            len as int
        } else {
            0
        },
        None => 0,
    }
}

/// The size that an image is decoded to: its own where there is no cap, else the
/// size that it has inside of the cap.
pub open spec fn target_size(header: ImageHeader, cap: u32) -> (u32, u32) {
    if cap == u32::MAX {
        (header.width, header.height)
    } else {
        let size = contained(header.width as int, header.height as int, cap as int, cap as int);
        (size.0 as u32, size.1 as u32)
    }
}

/// The bytes of the decoded image: a JPEG is scaled to the smallest size that
/// covers the target, any other image to the target itself.
pub open spec fn output_size(
    header: ImageHeader,
    target: (u32, u32),
    supported: Seq<ScalingFactor>,
) -> int {
    if header.is_jpeg {
        let factor = best_factor(
            supported,
            header.width as usize,
            header.height as usize,
            target.0,
            target.1,
            supported.len(),
        );
        4 * factor.scaled(header.width as int) * factor.scaled(header.height as int)
    } else {
        4 * target.0 * target.1
    }
}

/// The bytes of the source image that are held beside the decoded one: none of a
/// JPEG, eight for each pixel of any other image.
pub open spec fn retained_size(header: ImageHeader) -> int {
    if header.is_jpeg {
        0
    } else {
        8 * header.width * header.height
    }
}

/// The most bytes that decoding an image holds at a time, and the bytes of the
/// result; nothing where that is above the limit. An image whose header cannot be
/// read is taken to need all there is.
pub open spec fn decode_estimate(
    encoded_len: Option<u64>,
    header: Option<ImageHeader>,
    cap: u32,
    supported: Seq<ScalingFactor>,
) -> Option<(int, int)> {
    if encoded_size(encoded_len) > MAX_RGBA_DECODE_BYTES {
        None
    } else {
        match header {
            None => Some((MAX_RGBA_DECODE_BYTES as int, 0int)),
            Some(header) => {
                let output = output_size(header, target_size(header, cap), supported);
                let sum = encoded_size(encoded_len) + retained_size(header) + output;
                if sum > MAX_RGBA_DECODE_BYTES {
                    None
                } else {
                    Some((sum, output))
                }
            },
        }
    }
}

fn output_len(header: ImageHeader, target: (u32, u32), supported: &Vec<ScalingFactor>) -> (len:
    Result<usize, DecodeSafetyLimit>)
    requires
        forall|i: int| 0 <= i < supported@.len() ==> 0 < (#[trigger] supported@[i]).denom,
    ensures
        match len {
            Ok(len) => len == output_size(header, target, supported@) && len
                <= MAX_RGBA_DECODE_BYTES,
            Err(_) => output_size(header, target, supported@) > MAX_RGBA_DECODE_BYTES,
        },
{
    if header.is_jpeg {
        let factor = pick_scaling_factor(
            header.width as usize,
            header.height as usize,
            target.0,
            target.1,
            supported,
        );
        checked_rgba_len(factor.scale(header.width as usize), factor.scale(header.height as usize))
    } else {
        checked_rgba_len(target.0 as usize, target.1 as usize)
    }
}

/// The most bytes that decoding an image holds at a time, and the bytes of the
/// result.
pub fn estimate_image_decode(
    encoded_len: Option<u64>,
    header: Option<ImageHeader>,
    cap: u32,
    supported: &Vec<ScalingFactor>,
) -> (estimate: Result<(usize, usize), DecodeSafetyLimit>)
    requires
        forall|i: int| 0 <= i < supported@.len() ==> 0 < (#[trigger] supported@[i]).denom,
    ensures
        match estimate {
            Ok((sum, output)) => decode_estimate(encoded_len, header, cap, supported@)
                == Some((sum as int, output as int)),
            Err(_) => decode_estimate(encoded_len, header, cap, supported@) is None,
        },
{
    let encoded: usize = match encoded_len {
        Some(len) => if len <= usize::MAX as u64 {
            len as usize
        } else {
            0
        },
        None => 0,
    };
    if encoded > MAX_RGBA_DECODE_BYTES {
        return Err(DecodeSafetyLimit);
    }
    let header = match header {
        Some(header) => header,
        None => {
            return Ok((MAX_RGBA_DECODE_BYTES, 0));
        },
    };
    let target: (u32, u32) = if cap == u32::MAX {
        (header.width, header.height)
    } else {
        contained_dimensions(header.width as usize, header.height as usize, cap, cap)
    };
    proof {
        assert(0 <= header.width * header.height) by (nonlinear_arith);
        assert(8 * header.width * header.height == 2 * (4 * header.width * header.height))
            by (nonlinear_arith);
    }
    let output: usize = match output_len(header, target, supported) {
        Ok(output) => output,
        Err(error) => {
            return Err(error);
        },
    };
    let retained: usize = if header.is_jpeg {
        0
    } else {
        match checked_rgba_len(header.width as usize, header.height as usize) {
            Ok(half) => half * 2,
            Err(error) => {
                return Err(error);
            },
        }
    };
    match checked_decode_reservation([encoded, retained, output]) {
        Ok(sum) => Ok((sum, output)),
        Err(error) => Err(error),
    }
}

/// The most bytes that decoding an image holds at a time. The window reserves them
/// before work starts, so that parallel workers cannot each hold a maximum-sized
/// image at the same time.
pub fn estimated_image_decode_bytes(
    encoded_len: Option<u64>,
    header: Option<ImageHeader>,
    cap: u32,
    supported: &Vec<ScalingFactor>,
) -> (bytes: Result<usize, DecodeSafetyLimit>)
    requires
        forall|i: int| 0 <= i < supported@.len() ==> 0 < (#[trigger] supported@[i]).denom,
    ensures
        match bytes {
            Ok(bytes) => decode_estimate(encoded_len, header, cap, supported@) matches
                Some((sum, _)) && sum == bytes,
            Err(_) => decode_estimate(encoded_len, header, cap, supported@) is None,
        },
{
    match estimate_image_decode(encoded_len, header, cap, supported) {
        Ok((sum, _)) => Ok(sum),
        Err(error) => Err(error),
    }
}

/// The most bytes that decoding an image to a texture holds at a time: those of the decode,
/// or twice those of the result, for the second buffer that turning it into a texture
/// needs; nothing where that is above the limit.
pub open spec fn texture_estimate(estimate: Option<(int, int)>) -> Option<int> {
    match estimate {
        Some((sum, output)) => if 2 * output <= MAX_RGBA_DECODE_BYTES {
            Some(most(sum, 2 * output))
        } else {
            None
        },
        None => None,
    }
}

/// As [`estimated_image_decode_bytes`], with the second buffer that turning the
/// result into a texture needs.
pub fn estimated_color_image_decode_bytes(
    encoded_len: Option<u64>,
    header: Option<ImageHeader>,
    cap: u32,
    supported: &Vec<ScalingFactor>,
) -> (bytes: Result<usize, DecodeSafetyLimit>)
    requires
        forall|i: int| 0 <= i < supported@.len() ==> 0 < (#[trigger] supported@[i]).denom,
    ensures
        match bytes {
            Ok(bytes) => texture_estimate(decode_estimate(encoded_len, header, cap, supported@))
                == Some(bytes as int),
            Err(_) => texture_estimate(
                decode_estimate(encoded_len, header, cap, supported@),
            ) is None,
        },
{
    let (sum, output) = match estimate_image_decode(encoded_len, header, cap, supported) {
        Ok(estimate) => estimate,
        Err(error) => {
            return Err(error);
        },
    };
    if output > MAX_RGBA_DECODE_BYTES / 2 {
        return Err(DecodeSafetyLimit);
    }
    Ok(crate::numbers::max_usize(sum, output * 2))
}

/// Whether an EXIF orientation exchanges the axes of an image.
pub fn swaps_axes(orientation: Option<u16>) -> (swaps: bool)
    ensures
        swaps == metadata::swaps_axes(metadata::known_orientation(orientation)),
{
    match orientation {
        Some(value) => 5 <= value && value <= 8,
        None => false,
    }
}

/// The limits of the axes of the source image; a turn by a quarter exchanges which
/// of them is shown as the width.
pub fn source_limits(max_width: u32, max_height: u32, orientation: Option<u16>) -> (limits: (
    u32,
    u32,
))
    ensures
        limits == if metadata::swaps_axes(metadata::known_orientation(orientation)) {
            (max_height, max_width)
        } else {
            (max_width, max_height)
        },
{
    if swaps_axes(orientation) {
        (max_height, max_width)
    } else {
        (max_width, max_height)
    }
}

/// How a JPEG is decoded.
#[derive(Debug, Clone, Copy, PartialEq, Eq, Structural)]
pub struct JpegPlan {
    pub factor: ScalingFactor,
    pub width: usize,
    pub height: usize,
    pub buffer_len: usize,
}

/// The size that a JPEG is decoded to, at least: its own inside of the limits that
/// its orientation gives the axes.
pub open spec fn jpeg_target(
    width: usize,
    height: usize,
    max_width: u32,
    max_height: u32,
    orientation: Option<u16>,
) -> (u32, u32) {
    let size = if metadata::swaps_axes(metadata::known_orientation(orientation)) {
        contained(width as int, height as int, max_height as int, max_width as int)
    } else {
        contained(width as int, height as int, max_width as int, max_height as int)
    };
    (size.0 as u32, size.1 as u32)
}

/// The fraction by which a JPEG is scaled while it is decoded.
pub open spec fn jpeg_factor(
    width: usize,
    height: usize,
    target: (u32, u32),
    supported: Seq<ScalingFactor>,
) -> ScalingFactor {
    best_factor(supported, width, height, target.0, target.1, supported.len())
}

/// Plans how a JPEG with an orientation is decoded to cover its size inside of some
/// limits, where that is within the bytes that a decode may hold.
pub fn plan_jpeg(
    width: usize,
    height: usize,
    max_width: u32,
    max_height: u32,
    orientation: Option<u16>,
    encoded_len: usize,
    supported: &Vec<ScalingFactor>,
) -> (plan: Result<JpegPlan, DecodeSafetyLimit>)
    requires
        forall|i: int| 0 <= i < supported@.len() ==> 0 < (#[trigger] supported@[i]).denom,
    ensures
        ({
            let target = jpeg_target(width, height, max_width, max_height, orientation);
            let factor = jpeg_factor(width, height, target, supported@);
            let scaled_width = factor.scaled(width as int);
            let scaled_height = factor.scaled(height as int);
            let len = 4 * scaled_width * scaled_height;
            match plan {
                Ok(plan) => plan.factor == factor && plan.width == scaled_width && plan.height
                    == scaled_height && plan.buffer_len == len && encoded_len + len
                    <= MAX_RGBA_DECODE_BYTES,
                Err(_) => encoded_len + len > MAX_RGBA_DECODE_BYTES,
            }
        }),
{
    let limits = source_limits(max_width, max_height, orientation);
    let target = contained_dimensions(width, height, limits.0, limits.1);
    let factor = pick_scaling_factor(width, height, target.0, target.1, supported);
    let scaled_width: usize = factor.scale(width);
    let scaled_height: usize = factor.scale(height);
    let buffer_len: usize = match checked_rgba_len(scaled_width, scaled_height) {
        Ok(len) => len,
        Err(error) => {
            return Err(error);
        },
    };
    match checked_decode_reservation([encoded_len, 0, buffer_len]) {
        Ok(_) => Ok(
            JpegPlan { factor, width: scaled_width, height: scaled_height, buffer_len },
        ),
        Err(error) => Err(error),
    }
}

/// Why decoding a JPEG to a scaled size failed.
#[derive(Debug, PartialEq, Eq)]
pub enum JpegError {
    /// The image is above the limit.
    Limit(DecodeSafetyLimit),
    /// The decoder does not take the image.
    Decoder(String),
}

/// Why a file gave no picture.
#[derive(Debug, Clone, Copy, PartialEq, Eq, Structural)]
pub enum DecodeError {
    /// Decoding it would take too much memory.
    SafetyLimit(DecodeSafetyLimit),
    /// It holds no image that can be decoded.
    Undecodable,
}

/// What is known of the image in the content of a file.
pub open spec fn content_header(content: Seq<u8>, extension: Seq<char>) -> Option<ImageHeader> {
    match content_dimensions(content, extension) {
        Some((width, height)) => Some(
            ImageHeader { width, height, is_jpeg: jpeg_content(content, extension) },
        ),
        None => None,
    }
}

/// Reads what is known of an image before it is decoded.
pub fn read_header(content: &Vec<u8>, extension: &str) -> (header: Option<ImageHeader>)
    ensures
        header == content_header(content@, extension@),
{
    match dimensions_in(content, extension) {
        Some((width, height)) => Some(
            ImageHeader { width, height, is_jpeg: is_jpeg(content, extension) },
        ),
        None => None,
    }
}

/// The picture that a file gives: a JPEG gives what its scaled decode gave, where that
/// was tried and did not fail; above the limit nothing else is tried.
pub open spec fn source_picture(
    jpeg: bool,
    scaled: Option<Result<Picture, JpegError>>,
    decoded: Option<PictureParts>,
) -> Result<PictureParts, DecodeError> {
    match scaled {
        Some(Ok(picture)) if jpeg => Ok(picture.parts()),
        Some(Err(JpegError::Limit(limit))) if jpeg => Err(DecodeError::SafetyLimit(limit)),
        _ => match decoded {
            Some(parts) => Ok(parts),
            None => Err(DecodeError::Undecodable),
        },
    }
}

/// Whether a picture is another one turned and mirrored as an orientation says.
pub open spec fn turns(parts: PictureParts, picture: Picture, orientation: Option<u16>) -> bool {
    exists|from: Picture|
        from.parts() == parts && #[trigger] metadata::orients(from, picture, orientation)
}

/// Decodes an image and turns it as its orientation says. `scaled` is what the scaled
/// decode of a JPEG gave, where it was tried; where that failed, unless above the
/// limit, the image is decoded in full.
pub fn decode_at_most(
    content: &Vec<u8>,
    extension: &str,
    orientation: Option<u16>,
    scaled: Option<Result<Picture, JpegError>>,
) -> (result: Result<Picture, DecodeError>)
    requires
        scaled matches Some(Ok(picture)) ==> picture.sound(),
    ensures
        ({
            let source = source_picture(
                jpeg_content(content@, extension@),
                scaled,
                decoded_content(content@, extension@),
            );
            match result {
                Ok(picture) => picture.sound() && source is Ok && turns(
                    source->Ok_0,
                    picture,
                    orientation,
                ),
                Err(error) => source == Err::<PictureParts, DecodeError>(error),
            }
        }),
{
    if is_jpeg(content, extension) {
        match scaled {
            Some(Ok(picture)) => {
                let result = apply_orientation(picture, orientation);
                assert(metadata::orients(picture, result, orientation));
                return Ok(result);
            },
            Some(Err(error)) => {
                if let JpegError::Limit(limit) = error {
                    return Err(DecodeError::SafetyLimit(limit));
                }
            },
            None => {},
        }
    }
    match decode_content(content, extension) {
        Some(picture) => {
            let result = apply_orientation(picture, orientation);
            assert(metadata::orients(picture, result, orientation));
            Ok(result)
        },
        None => Err(DecodeError::Undecodable),
    }
}

/// Whether a picture is another one, scaled down to a cap where it exceeds it.
pub open spec fn caps(full: Picture, picture: Picture, cap: u32) -> bool {
    if cap != u32::MAX && (full.width > cap || full.height > cap) {
        picture.parts() == resized_within(full.width, full.height, full.pixels@, cap, cap)
    } else {
        picture == full
    }
}

/// Whether a picture that was scaled down from a size has as many pixels as a cap allows
/// on the longer side.
pub open spec fn reaches_cap(size: (u32, u32), picture: Picture, cap: u32) -> bool {
    &&& size.0 >= size.1 ==> picture.width == most(cap as int, 1)
    &&& size.1 >= size.0 ==> picture.height == most(cap as int, 1)
}

proof fn lemma_square_limits(width: int, height: int, cap: int)
    requires
        cap >= 0,
    ensures
        width >= height ==> cap * height <= cap * width,
        height >= width ==> cap * width <= cap * height,
{
    if width >= height {
        assert(cap * height <= cap * width) by (nonlinear_arith)
            requires
                width >= height,
                cap >= 0,
        ;
    }
    if height >= width {
        assert(cap * width <= cap * height) by (nonlinear_arith)
            requires
                height >= width,
                cap >= 0,
        ;
    }
}

/// Whether an image is decoded in full and exceeds a cap: it is scaled down in its own
/// colours.
pub open spec fn shrinks_whole(
    jpeg: bool,
    scaled: Option<Result<Picture, JpegError>>,
    size: Option<(u32, u32)>,
    cap: u32,
) -> bool {
    &&& size matches Some((width, height)) && cap != u32::MAX && (width > cap || height > cap)
    &&& !(jpeg && match scaled {
        Some(Ok(_)) => true,
        Some(Err(JpegError::Limit(_))) => true,
        _ => false,
    })
}

/// The orientation that the EXIF metadata in the content of a file give.
pub open spec fn content_orientation(content: Seq<u8>) -> Option<u16> {
    match metadata::content_exif(content) {
        Some(exif) => exif.orientation,
        None => None,
    }
}

/// Scales a picture down to a cap, where it exceeds it.
pub fn cap_picture(full: Picture, cap: u32) -> (picture: Picture)
    requires
        full.sound(),
    ensures
        picture.sound(),
        caps(full, picture, cap),
        cap != u32::MAX ==> picture.width <= most(cap as int, 1) && picture.height <= most(
            cap as int,
            1,
        ),
        cap != u32::MAX && (full.width > cap || full.height > cap) ==> reaches_cap(
            (full.width, full.height),
            picture,
            cap,
        ),
{
    if exceeds_cap(full.width, full.height, cap) {
        proof {
            lemma_square_limits(full.width as int, full.height as int, cap as int);
        }
        shrink(full, cap, cap)
    } else {
        full
    }
}

/// Decodes an image to a picture whose sides have at most `cap` pixels, turned as its
/// EXIF metadata say; `u32::MAX` stands for no cap. `scaled` is what the scaled decode
/// of a JPEG gave, where it was tried. Any other image that exceeds the cap is scaled
/// down in its own colours.
pub fn decode_rgba_capped(
    content: &Vec<u8>,
    extension: &str,
    cap: u32,
    supported: &Vec<ScalingFactor>,
    scaled: Option<Result<Picture, JpegError>>,
) -> (result: Result<Picture, DecodeError>)
    requires
        forall|i: int| 0 <= i < supported@.len() ==> 0 < (#[trigger] supported@[i]).denom,
        scaled matches Some(Ok(picture)) ==> picture.sound(),
    ensures
        ({
            let estimate = decode_estimate(
                Some(content@.len() as u64),
                content_header(content@, extension@),
                cap,
                supported@,
            );
            let source = source_picture(
                jpeg_content(content@, extension@),
                scaled,
                decoded_content(content@, extension@),
            );
            match result {
                Ok(picture) => {
                    &&& estimate is Some && source is Ok
                    &&& if shrinks_whole(
                        jpeg_content(content@, extension@),
                        scaled,
                        content_dimensions(content@, extension@),
                        cap,
                    ) {
                        &&& shrunk_content(
                            content@,
                            extension@,
                            content_orientation(content@),
                            cap,
                            cap,
                        ) == Some(picture.parts())
                        &&& reaches_cap(
                            turned_size(
                                content_dimensions(content@, extension@).unwrap(),
                                exif_number(content_orientation(content@)) as u16,
                            ),
                            picture,
                            cap,
                        )
                    } else {
                        exists|full: Picture|
                            #[trigger] turns(source->Ok_0, full, content_orientation(content@))
                                && caps(full, picture, cap) && (cap != u32::MAX && (full.width
                                > cap || full.height > cap) ==> reaches_cap(
                                (full.width, full.height),
                                picture,
                                cap,
                            ))
                    }
                    &&& picture.sound()
                    &&& cap != u32::MAX ==> picture.width <= most(cap as int, 1)
                        && picture.height <= most(cap as int, 1)
                },
                Err(error) => if estimate is None {
                    error == DecodeError::SafetyLimit(DecodeSafetyLimit)
                } else {
                    source == Err::<PictureParts, DecodeError>(error)
                },
            }
        }),
{
    assert(content@.len() == content.len());
    let header = read_header(content, extension);
    if let Err(limit) = estimated_image_decode_bytes(
        Some(content.len() as u64),
        header,
        cap,
        supported,
    ) {
        return Err(DecodeError::SafetyLimit(limit));
    }
    let orientation = match read_exif_metadata(content) {
        Some(exif) => exif.orientation,
        None => None,
    };
    let large = match header {
        Some(header) => exceeds_cap(header.width, header.height, cap),
        None => false,
    };
    let takes_scaled = match (is_jpeg(content, extension), &scaled) {
        (true, Some(Ok(_))) => true,
        (true, Some(Err(JpegError::Limit(_)))) => true,
        _ => false,
    };
    if large && !takes_scaled {
        return match decode_shrunk(content, extension, orientation, cap, cap) {
            Some(picture) => {
                proof {
                    let turned = turned_size(
                        content_dimensions(content@, extension@).unwrap(),
                        exif_number(orientation) as u16,
                    );
                    lemma_square_limits(turned.0 as int, turned.1 as int, cap as int);
                }
                Ok(picture)
            },
            None => Err(DecodeError::Undecodable),
        };
    }
    match decode_at_most(content, extension, orientation, scaled) {
        Ok(full) => Ok(cap_picture(full, cap)),
        Err(error) => Err(error),
    }
}

/// Decodes an image in the format that its extension names, and turns it as an
/// orientation says.
pub fn decode_oriented(content: &Vec<u8>, extension: &str, orientation: Option<u16>) -> (result:
    Option<Picture>)
    ensures
        match result {
            Some(picture) => picture.sound() && decoded_as(content@, extension@) is Some && turns(
                decoded_as(content@, extension@).unwrap(),
                picture,
                orientation,
            ),
            None => decoded_as(content@, extension@) is None,
        },
{
    match decode_as(content, extension) {
        Some(picture) => {
            let result = apply_orientation(picture, orientation);
            assert(metadata::orients(picture, result, orientation));
            Some(result)
        },
        None => None,
    }
}

/// Whether a decoded image is still to be scaled down to a cap.
pub fn exceeds_cap(width: u32, height: u32, cap: u32) -> (exceeds: bool)
    ensures
        exceeds == (cap != u32::MAX && (width > cap || height > cap)),
{
    cap != u32::MAX && (width > cap || height > cap)
}

/// What a decode may hold at a time is within the limit.
pub proof fn law_estimates_are_within_the_limit(
    encoded_len: Option<u64>,
    header: Option<ImageHeader>,
    cap: u32,
    supported: Seq<ScalingFactor>,
)
    ensures
        decode_estimate(encoded_len, header, cap, supported) matches Some((sum, _))
            ==> sum <= MAX_RGBA_DECODE_BYTES,
{
}

proof fn lemma_side_near(n: int, scale: int)
    requires
        1 <= n <= u32::MAX,
        scale <= unit(),
        scale * (16 * VAST) >= unit(),
    ensures
        ({
            let side = most(least(scaled(n * unit(), scale), u32::MAX as int), 1);
            -unit() <= side * unit() - n * scale <= unit()
        }),
{
    let u = unit();
    let h = HIGH as int;
    lemma_length(n);
    lemma_whole_is_exact(n);
    lemma_scaled_does_not_grow(n, scale);
    let p = crate::binary::product(n * u, scale);
    crate::binary::lemma_product_error(n * u, scale);
    let t = n * scale;
    assert(p * h <= t * (h + 1)) by (nonlinear_arith)
        requires
            p * u * h <= (n * u) * scale * (h + 1),
            t == n * scale,
            u > 0,
    ;
    assert(p * h >= t * (h - 1)) by (nonlinear_arith)
        requires
            p * u * h >= (n * u) * scale * (h - 1),
            t == n * scale,
            u > 0,
    ;
    assert(scale > 0) by (nonlinear_arith)
        requires
            scale * (16 * VAST) >= u,
            u > 0,
    ;
    assert(0 <= t <= n * u) by (nonlinear_arith)
        requires
            t == n * scale,
            n >= 1,
            0 <= scale <= u,
    ;
    assert(n * u <= 0xffff_ffff * u) by (nonlinear_arith)
        requires
            n <= 0xffff_ffff,
            u > 0,
    ;
    let c = scaled(n * u, scale);
    let top = 2 * p + u;
    let bottom = 2 * u;
    vstd::arithmetic::div_mod::lemma_fundamental_div_mod(top, bottom);
    vstd::arithmetic::div_mod::lemma_mod_bound(top, bottom);
    assert(bottom * c == 2 * (c * u)) by (nonlinear_arith)
        requires
            bottom == 2 * u,
    ;
    assert(-u <= 2 * (c * u) - 2 * p <= u);
    assert(c * u - t <= u) by (nonlinear_arith)
        requires
            2 * (c * u) - 2 * p <= u,
            p * h <= t * (h + 1),
            0 <= t <= 0xffff_ffff * u,
            h == 0x20_0000_0000_0000,
            u > 0,
    ;
    assert(c * u - t >= -u) by (nonlinear_arith)
        requires
            2 * (c * u) - 2 * p >= -u,
            p * h >= t * (h - 1),
            0 <= t <= 0xffff_ffff * u,
            h == 0x20_0000_0000_0000,
            u > 0,
    ;
    let side = most(least(c, u32::MAX as int), 1);
    if c == 0 {
        assert(c * u == 0) by (nonlinear_arith)
            requires
                c == 0,
        ;
        assert(side * u == u) by (nonlinear_arith)
            requires
                side == 1,
        ;
    } else {
        assert(side == c);
    }
}

/// A size that was scaled down keeps its proportions, as far as whole pixels allow.
pub proof fn law_contained_size_keeps_proportions(
    width: int,
    height: int,
    max_width: int,
    max_height: int,
)
    requires
        1 <= width <= u32::MAX,
        1 <= height <= u32::MAX,
        1 <= max_width <= u32::MAX,
        1 <= max_height <= u32::MAX,
    ensures
        ({
            let size = contained(width, height, max_width, max_height);
            -(width + height) <= size.0 * height - size.1 * width <= width + height
        }),
{
    let u = unit();
    let (w, h) = (whole(width), whole(height));
    let scale = fit_scale(w, h, max_width, max_height);
    lemma_whole_is_exact(1);
    lemma_length(width);
    lemma_length(height);
    lemma_side_scale(width, max_width);
    lemma_side_scale(height, max_height);
    assert(u * (16 * VAST) >= u) by (nonlinear_arith)
        requires
            u >= 0,
    ;
    lemma_side_near(width, scale);
    lemma_side_near(height, scale);
    let size = contained(width, height, max_width, max_height);
    let a = size.0 * u - width * scale;
    let b = size.1 * u - height * scale;
    assert((size.0 * height - size.1 * width) * u == height * a - width * b) by (nonlinear_arith)
        requires
            a == size.0 * u - width * scale,
            b == size.1 * u - height * scale,
    ;
    assert(height * a - width * b <= (width + height) * u) by (nonlinear_arith)
        requires
            a <= u,
            b >= -u,
            width >= 1,
            height >= 1,
    ;
    assert(height * a - width * b >= -((width + height) * u)) by (nonlinear_arith)
        requires
            a >= -u,
            b <= u,
            width >= 1,
            height >= 1,
    ;
    let d = size.0 * height - size.1 * width;
    assert(-(width + height) <= d <= width + height) by (nonlinear_arith)
        requires
            -((width + height) * u) <= d * u <= (width + height) * u,
            u > 0,
    ;
}

/// A dimension scaled by a fraction is rounded up to whole pixels.
pub proof fn law_scaled_dimensions_round_up(factor: ScalingFactor, dimension: int)
    requires
        factor.denom > 0,
        dimension >= 0,
    ensures
        factor.scaled(dimension) * factor.denom >= dimension * factor.num,
        (factor.scaled(dimension) - 1) * factor.denom < dimension * factor.num
            || factor.scaled(dimension) == 0,
{
    let d = factor.denom as int;
    let t = dimension * factor.num;
    let top = t + d - 1;
    vstd::arithmetic::div_mod::lemma_fundamental_div_mod(top, d);
    vstd::arithmetic::div_mod::lemma_mod_bound(top, d);
    let q = top / d;
    assert(q * d >= t && (q - 1) * d < t) by (nonlinear_arith)
        requires
            top == d * q + top % d,
            0 <= top % d < d,
            top == t + d - 1,
    ;
}

/// An image that is no JPEG is counted with the bytes of its file, eight for each of its
/// pixels and four for each pixel of the result; and it is decoded only where these are
/// no more than 512 MiB together.
pub proof fn law_decodes_are_counted(len: u64, header: ImageHeader, supported: Seq<ScalingFactor>)
    requires
        !header.is_jpeg,
        len <= usize::MAX,
    ensures
        ({
            let pixels = header.width * header.height;
            let estimate = decode_estimate(Some(len), Some(header), u32::MAX, supported);
            &&& len + 12 * pixels <= 536_870_912 ==> estimate == Some(
                (len + 12 * pixels, 4 * pixels),
            )
            &&& len + 12 * pixels > 536_870_912 ==> estimate is None
        }),
{
    let pixels = header.width * header.height;
    assert(pixels >= 0) by (nonlinear_arith)
        requires
            pixels == header.width * header.height,
            header.width >= 0,
            header.height >= 0,
    ;
    assert(8 * header.width * header.height == 8 * pixels) by (nonlinear_arith)
        requires
            pixels == header.width * header.height,
    ;
    assert(4 * header.width * header.height == 4 * pixels) by (nonlinear_arith)
        requires
            pixels == header.width * header.height,
    ;
}

/// A JPEG is counted with the bytes of its file and those of the result alone, and the
/// result covers the size that the cap leaves of it; an image whose header is not known is
/// counted with the whole limit.
pub proof fn law_jpegs_are_counted_scaled(
    len: u64,
    header: ImageHeader,
    cap: u32,
    supported: Seq<ScalingFactor>,
)
    requires
        header.is_jpeg,
        header.width > 0,
        header.height > 0,
        cap >= 1,
        len <= 536_870_912,
        forall|i: int| 0 <= i < supported.len() ==> 0 < (#[trigger] supported[i]).denom,
    ensures
        decode_estimate(Some(len), Some(header), cap, supported) matches Some((sum, output)) ==> {
            &&& sum == len + output
            &&& sum <= 536_870_912
            &&& cap == u32::MAX ==> output >= 4 * header.width * header.height
            &&& header.width <= cap && header.height <= cap ==> output >= 4 * header.width
                * header.height
        },
        decode_estimate(Some(len), None, cap, supported) == Some((536_870_912int, 0int)),
        len <= 536_870_912 && supported.len() == 0 && len + 4 * header.width * header.height
            <= 536_870_912 ==> decode_estimate(Some(len), Some(header), cap, supported) == Some(
            (len + 4 * header.width * header.height, 4 * header.width * header.height),
        ),
{
    let (w, h) = (header.width as int, header.height as int);
    let target = target_size(header, cap);
    law_contained_size_fits(w, h, cap as int, cap as int);
    law_picked_factor_covers_target(
        supported,
        header.width as usize,
        header.height as usize,
        target.0,
        target.1,
        supported.len(),
    );
    lemma_unscaled(w);
    lemma_unscaled(h);
    let factor = best_factor(
        supported,
        header.width as usize,
        header.height as usize,
        target.0,
        target.1,
        supported.len(),
    );
    let (across, down) = (factor.scaled(w), factor.scaled(h));
    if cap == u32::MAX || (w <= cap && h <= cap) {
        assert(across >= w && down >= h);
        assert(4 * across * down >= 4 * w * h) by (nonlinear_arith)
            requires
                across >= w,
                down >= h,
                w > 0,
                h > 0,
        ;
    }
}

/// An image that is no JPEG is counted, under a cap, with the pixels that the cap leaves of
/// it, which keep within the cap.
pub proof fn law_capped_decodes_are_counted(
    len: u64,
    header: ImageHeader,
    cap: u32,
    supported: Seq<ScalingFactor>,
)
    requires
        !header.is_jpeg,
        header.width > 0,
        header.height > 0,
        1 <= cap < u32::MAX,
        len <= 536_870_912,
    ensures
        decode_estimate(Some(len), Some(header), cap, supported) matches Some((sum, output)) ==> {
            &&& sum == len + 8 * header.width * header.height + output
            &&& output <= 4 * cap * cap
            &&& header.width <= cap && header.height <= cap ==> output == 4 * header.width
                * header.height
        },
{
    let (w, h) = (header.width as int, header.height as int);
    let target = target_size(header, cap);
    law_contained_size_fits(w, h, cap as int, cap as int);
    let (across, down, limit) = (target.0 as int, target.1 as int, cap as int);
    assert(4 * across * down <= 4 * limit * limit) by (nonlinear_arith)
        requires
            1 <= across <= limit,
            1 <= down <= limit,
    ;
}

/// A texture holds its result twice, and is made only where that too is within the limit.
pub proof fn law_textures_are_counted_twice(sum: int, output: int)
    requires
        0 <= output <= sum <= 536_870_912,
    ensures
        texture_estimate(Some((sum, output))) is Some <==> 2 * output <= 536_870_912,
        texture_estimate(Some((sum, output))) matches Some(bytes) ==> bytes >= sum && bytes >= 2
            * output && bytes <= 536_870_912 && (bytes == sum || bytes == 2 * output),
        texture_estimate(None) is None,
{
}

/// A JPEG that is shown turned by a quarter is decoded to fit the limits the other way
/// round, so that it fits once it is turned.
pub proof fn law_turned_jpegs_fit(
    width: usize,
    height: usize,
    max_width: u32,
    max_height: u32,
    orientation: u16,
)
    requires
        width > 0,
        height > 0,
        max_width > 0,
        max_height > 0,
    ensures
        ({
            let target = jpeg_target(width, height, max_width, max_height, Some(orientation));
            &&& 5 <= orientation <= 8 ==> target.1 <= max_width && target.0 <= max_height
            &&& orientation < 5 || orientation > 8 ==> target.0 <= max_width && target.1
                <= max_height
            &&& 5 <= orientation <= 8 && width <= max_height && height <= max_width ==> target.0
                == width && target.1 == height
            &&& (orientation < 5 || orientation > 8) && width <= max_width && height
                <= max_height ==> target.0 == width && target.1 == height
            &&& jpeg_target(width, height, max_width, max_height, None) == jpeg_target(
                width,
                height,
                max_width,
                max_height,
                Some(1),
            )
        }),
{
    law_contained_size_fits(width as int, height as int, max_width as int, max_height as int);
    law_contained_size_fits(width as int, height as int, max_height as int, max_width as int);
}

/// A JPEG gives what its scaled decode gave, and no full decode is tried above the limit;
/// where the scaled decode failed otherwise or was not tried, and of any other image, the
/// full decode is taken.
pub proof fn law_scaled_decodes_are_preferred(
    picture: Picture,
    limit: DecodeSafetyLimit,
    scaled: Option<Result<Picture, JpegError>>,
    decoded: PictureParts,
)
    ensures
        source_picture(true, Some(Ok(picture)), Some(decoded)) == Ok::<PictureParts, DecodeError>(
            picture.parts(),
        ),
        source_picture(true, Some(Ok(picture)), None) == Ok::<PictureParts, DecodeError>(
            picture.parts(),
        ),
        source_picture(true, Some(Err(JpegError::Limit(limit))), Some(decoded)) == Err::<
            PictureParts,
            DecodeError,
        >(DecodeError::SafetyLimit(limit)),
        source_picture(true, None, Some(decoded)) == Ok::<PictureParts, DecodeError>(decoded),
        source_picture(false, scaled, Some(decoded)) == Ok::<PictureParts, DecodeError>(decoded),
        source_picture(false, scaled, None) is Err,
        source_picture(true, None, None) is Err,
{
}

} // verus!
