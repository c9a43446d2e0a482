//! Decoding images, turning and scaling pictures, and the frames of videos.

use std::io::Cursor;
use std::time::Duration;

use cullr::binary::{seconds_of, Binary};
use cullr::codec::{find_extension, is_jpeg, names_jpeg, pick_extension};
use cullr::decode::{
    cap_picture, checked_decode_reservation, checked_rgba_len, contained_dimensions,
    decode_at_most, decode_oriented, decode_rgba_capped, estimated_color_image_decode_bytes,
    estimated_image_decode_bytes, exceeds_cap, pick_scaling_factor, plan_jpeg, read_header,
    source_limits, swaps_axes, DecodeError, DecodeSafetyLimit, ImageHeader, JpegError,
    ScalingFactor, MAX_RGBA_DECODE_BYTES,
};
use cullr::metadata::{apply_orientation, enrich_entry, read_image_dimensions};
use cullr::path::MediaPath;
use cullr::picture::Picture;
use cullr::state::{FileName, ImageKind, MediaEntry, MediaKind};
use cullr::thumbnail::{
    decode_resize, generate_thumbnail_for_test, image_byte_len, thumbnail_pixel_size,
};
use cullr::video::{
    apply_video_rotation, capped_dimensions, capped_dimensions_with_aspect,
    checked_rgba_buffer_len, decoder_needs_more_input, duration_to_format_timestamp,
    format_duration, frame_duration, mul_duration, output_channels, plan_audio_frame, rgba_image_from_frame, seek_timestamp,
    should_discard_seek_preroll, timestamp_to_duration, usable_channel_layout,
    video_rotation_from_counter_clockwise_degrees, wait_step, AudioError, DecoderError,
    DueFrame, FrameError, LayoutChoice, PlaybackTimeline, VideoRotation, WaitStep,
};
use image::imageops::FilterType;
use image::{DynamicImage, ImageBuffer, ImageFormat, Rgb, RgbImage, Rgba};

const SECOND: u128 = 1_000_000_000;

/// The factors by which JPEGs can be scaled while they are decoded.
fn factors() -> Vec<ScalingFactor> {
    [16, 15, 14, 13, 12, 11, 10, 9, 8, 7, 6, 5, 4, 3, 2, 1]
        .into_iter()
        .map(|num| ScalingFactor { num, denom: 8 })
        .collect()
}

fn png(width: u32, height: u32) -> Vec<u8> {
    let mut content = Vec::new();
    RgbImage::new(width, height)
        .write_to(&mut Cursor::new(&mut content), ImageFormat::Png)
        .unwrap();
    content
}

fn jpeg(width: u32, height: u32, blue: u8) -> Vec<u8> {
    let image = RgbImage::from_fn(width, height, |x, y| {
        Rgb([(x % u8::MAX as u32) as u8, (y % u8::MAX as u32) as u8, blue])
    });
    let mut content = Vec::new();
    image.write_to(&mut Cursor::new(&mut content), ImageFormat::Jpeg).unwrap();
    content
}

fn sample() -> Vec<u8> {
    let image = ImageBuffer::from_fn(8, 8, |x, y| {
        if (x + y) % 2 == 0 {
            Rgba([255u8, 0, 0, 255])
        } else {
            Rgba([0u8, 0, 255, 255])
        }
    });
    let mut content = Vec::new();
    image.write_to(&mut Cursor::new(&mut content), ImageFormat::Png).unwrap();
    content
}

/// A picture whose pixels are numbered by rows.
fn numbered(width: u32, height: u32) -> Picture {
    let mut pixels = Vec::new();
    for n in 0..width * height {
        pixels.extend([n as u8, 0, 0, 255]);
    }
    Picture { width, height, pixels }
}

/// The numbers of the pixels of a picture, by rows.
fn numbers(picture: &Picture) -> Vec<u8> {
    picture.pixels.iter().copied().step_by(4).collect()
}

fn decode(content: &Vec<u8>, extension: &str, cap: u32) -> Result<Picture, DecodeError> {
    decode_rgba_capped(content, extension, cap, &factors(), None)
}

#[test]
fn caps_oversized_images_on_both_axes() {
    let rgba = decode(&png(2000, 1000), "png", 512).unwrap();

    assert!(rgba.width <= 512 && rgba.height <= 512);
    assert_eq!(rgba.width, 512);
}

#[test]
fn keeps_small_images_untouched() {
    let rgba = decode(&png(100, 80), "png", 512).unwrap();

    assert_eq!((rgba.width, rgba.height), (100, 80));
}

#[test]
fn decodes_jpeg_content_with_png_extension() {
    let content = jpeg(32, 16, 180);

    let rgba = decode(&content, "png", 512).unwrap();

    assert_eq!((rgba.width, rgba.height), (32, 16));
}

#[test]
fn decode_writes_no_files_to_input_directory() {
    let content = sample();
    let before = content.clone();

    let rgba = decode(&content, "png", 3840).unwrap();

    assert!(rgba.width > 0);
    assert_eq!(before, content);
}

#[test]
fn decode_caps_large_images_for_display() {
    let rgba = decode(&png(1600, 900), "png", 512).unwrap();

    assert!(rgba.width <= 512 && rgba.height <= 512);
}

#[test]
fn decoded_pixels_are_those_of_the_file() {
    let picture = decode(&sample(), "png", u32::MAX).unwrap();
    assert_eq!(picture.pixels.len(), 8 * 8 * 4);
    assert_eq!(&picture.pixels[..8], &[255, 0, 0, 255, 0, 0, 255, 255]);
}

#[test]
fn images_that_cannot_be_decoded_are_reported() {
    assert_eq!(decode(&b"no image".to_vec(), "png", 512), Err(DecodeError::Undecodable));
    let mut cut = sample();
    cut.truncate(40);
    assert_eq!(decode(&cut, "png", 512), Err(DecodeError::Undecodable));
}

#[test]
fn a_scaled_decode_is_taken_for_jpegs_alone() {
    let scaled = || Some(Ok(numbered(2, 1)));
    let content = jpeg(32, 16, 180);
    let taken = decode_at_most(&content, "jpg", Some(6), scaled()).unwrap();
    assert_eq!((taken.width, taken.height), (1, 2));
    let ignored = decode_at_most(&sample(), "png", None, scaled()).unwrap();
    assert_eq!((ignored.width, ignored.height), (8, 8));

    let failed = Some(Err(JpegError::Decoder("broken".to_owned())));
    let whole = decode_at_most(&content, "jpg", None, failed).unwrap();
    assert_eq!((whole.width, whole.height), (32, 16));
    let limit = Some(Err(JpegError::Limit(DecodeSafetyLimit)));
    assert_eq!(
        decode_at_most(&content, "jpg", None, limit),
        Err(DecodeError::SafetyLimit(DecodeSafetyLimit))
    );
}

#[test]
fn the_extension_decides_where_it_is_asked() {
    assert!(decode_oriented(&jpeg(32, 16, 180), "png", None).is_none());
    let picture = decode_oriented(&jpeg(32, 16, 180), "jpg", Some(8)).unwrap();
    assert_eq!((picture.width, picture.height), (16, 32));
}

#[test]
fn thumbnails_fit_their_cells() {
    let thumbnail = decode_resize(&png(400, 200), "png", 10, 10, (10, 20), None).unwrap();
    assert_eq!((thumbnail.width, thumbnail.height), (100, 50));
    assert_eq!(thumbnail.pixels.len(), 100 * 50 * 4);
    let small = decode_resize(&sample(), "png", 10, 10, (10, 20), None).unwrap();
    assert_eq!(&small.pixels[..8], &[255, 0, 0, 255, 0, 0, 255, 255]);
    assert!(decode_resize(&b"no image".to_vec(), "png", 10, 10, (10, 20), None).is_none());
    assert_eq!(thumbnail_pixel_size((400, 200), 10, 1, (10, 20)), (40, 20));
    assert_eq!(image_byte_len((40, 20)), 3200);
    let same = generate_thumbnail_for_test(&png(400, 200), "png", 10, 10).unwrap();
    assert_eq!((same.width, same.height), (100, 50));
}

#[test]
fn scaled_thumbnails_keep_the_colour() {
    let image = RgbImage::from_pixel(64, 64, Rgb([10, 200, 30]));
    let mut content = Vec::new();
    image.write_to(&mut Cursor::new(&mut content), ImageFormat::Png).unwrap();
    let thumbnail = decode_resize(&content, "png", 1, 1, (8, 8), None).unwrap();
    assert_eq!((thumbnail.width, thumbnail.height), (8, 8));
    assert_eq!(&thumbnail.pixels[..4], &[10, 200, 30, 255]);
    let capped = decode(&content, "png", 16).unwrap();
    assert_eq!((capped.width, capped.height), (16, 16));
    assert_eq!(&capped.pixels[..4], &[10, 200, 30, 255]);
}

#[test]
fn headers_tell_size_and_format() {
    assert_eq!(
        read_header(&jpeg(24, 12, 200), "png"),
        Some(ImageHeader { width: 24, height: 12, is_jpeg: true })
    );
    assert_eq!(
        read_header(&png(3, 5), "jpg"),
        Some(ImageHeader { width: 3, height: 5, is_jpeg: false })
    );
    assert_eq!(read_header(&b"no image".to_vec(), "png"), None);
    assert_eq!(read_image_dimensions(&png(3, 5), ""), Some((3, 5)));
}

#[test]
fn the_content_tells_the_format_before_the_extension() {
    assert_eq!(find_extension(&jpeg(4, 4, 1), "png"), "jpg");
    assert_eq!(find_extension(&png(4, 4), ""), "png");
    assert_eq!(find_extension(&b"no image".to_vec(), "Webp"), "Webp");
    assert_eq!(pick_extension(Some("gif".to_owned()), "png"), "gif");
    assert_eq!(pick_extension(None, "png"), "png");
    assert!(names_jpeg("JPG") && names_jpeg("jpeg") && !names_jpeg("png"));
    assert!(is_jpeg(&jpeg(4, 4, 1), "png"));
    assert!(is_jpeg(&b"no image".to_vec(), "jpeg"));
    assert!(!is_jpeg(&png(4, 4), "jpg"));
}

#[test]
fn every_kind_of_image_is_decoded() {
    for (extension, format) in [
        ("bmp", ImageFormat::Bmp),
        ("gif", ImageFormat::Gif),
        ("ico", ImageFormat::Ico),
        ("qoi", ImageFormat::Qoi),
        ("tiff", ImageFormat::Tiff),
        ("webp", ImageFormat::WebP),
    ] {
        let mut content = Vec::new();
        image::RgbaImage::from_pixel(5, 3, Rgba([250, 0, 0, 255]))
            .write_to(&mut Cursor::new(&mut content), format)
            .unwrap();
        let picture = decode(&content, extension, u32::MAX).unwrap();
        assert_eq!((picture.width, picture.height), (5, 3));
        assert_eq!(&picture.pixels[..4], &[250, 0, 0, 255]);
    }
}

#[test]
fn dimensions_use_image_content_before_extension() {
    let content = jpeg(24, 12, 200);
    let mut entry = MediaEntry {
        path: MediaPath { names: vec![b"actually_jpeg.png".to_vec()] },
        file_name: FileName {
            text: Some("actually_jpeg.png".to_owned()),
            lossy: "actually_jpeg.png".to_owned(),
            quoted: "\"actually_jpeg.png\"".to_owned(),
        },
        display_name: "actually_jpeg.png".to_owned(),
        extension: Some("png".to_owned()),
        file_len: content.len() as u64,
        created: None,
        modified: None,
        discovered_order: 0,
        dimensions: None,
        media_kind: MediaKind::Image(ImageKind::Png),
        exif_date: None,
        exif_orientation: None,
        dimensions_attempted: false,
        exif_attempted: false,
    };

    enrich_entry(&mut entry, Some(&content));

    assert_eq!(entry.dimensions, Some((24, 12)));
}

#[test]
fn jpeg_scaling_target_preserves_aspect_ratio() {
    assert_eq!(contained_dimensions(8000, 4000, 3840, 3840), (3840, 1920));
    let factor = pick_scaling_factor(8000, 4000, 3840, 1920, &factors());
    assert!(factor.scale(8000) < 8000);
    assert!(factor.scale(8000) >= 3840);
    assert!(factor.scale(4000) >= 1920);
}

#[test]
fn jpeg_safety_limit_is_a_terminal_decode_error() {
    let error = checked_rgba_len(20_000, 20_000).unwrap_err();

    assert_eq!(error, DecodeSafetyLimit);
    assert_eq!(error.message(), "image decode would exceed the 512 MiB safety limit");
    assert_eq!(
        plan_jpeg(20_000, 20_000, u32::MAX, u32::MAX, None, 0, &factors()),
        Err(DecodeSafetyLimit)
    );
}

#[test]
fn rejects_an_oversized_encoded_file_before_reading_it() {
    let error = estimated_image_decode_bytes(
        Some(MAX_RGBA_DECODE_BYTES as u64 + 1),
        None,
        512,
        &factors(),
    )
    .unwrap_err();

    assert_eq!(error, DecodeSafetyLimit);
}

#[test]
fn estimates_count_what_a_decode_holds() {
    let header = ImageHeader { width: 1000, height: 500, is_jpeg: false };
    assert_eq!(
        estimated_image_decode_bytes(Some(100), Some(header), 100, &factors()),
        Ok(100 + 8 * 1000 * 500 + 4 * 100 * 50)
    );
    let header = ImageHeader { is_jpeg: true, ..header };
    assert_eq!(
        estimated_image_decode_bytes(Some(100), Some(header), 125, &factors()),
        Ok(100 + 4 * 125 * 63)
    );
    assert_eq!(
        estimated_color_image_decode_bytes(Some(100), Some(header), 125, &factors()),
        Ok(2 * 4 * 125 * 63)
    );
    assert_eq!(
        estimated_image_decode_bytes(None, None, 125, &factors()),
        Ok(MAX_RGBA_DECODE_BYTES)
    );
    assert_eq!(checked_decode_reservation([1, 2, 3]), Ok(6));
    assert_eq!(
        checked_decode_reservation([MAX_RGBA_DECODE_BYTES, 1, 0]),
        Err(DecodeSafetyLimit)
    );
    assert!(checked_decode_reservation([usize::MAX, usize::MAX, 1]).is_err());
}

#[test]
fn jpeg_plans_follow_the_orientation() {
    let upright = plan_jpeg(4000, 2000, 1000, 500, Some(1), 10, &factors()).unwrap();
    assert_eq!((upright.width, upright.height), (1000, 500));
    assert_eq!(upright.buffer_len, 4 * 1000 * 500);
    let turned = plan_jpeg(4000, 2000, 500, 1000, Some(6), 10, &factors()).unwrap();
    assert_eq!((turned.width, turned.height), (1000, 500));
    assert_eq!(source_limits(1, 2, Some(6)), (2, 1));
    assert!(swaps_axes(Some(5)) && !swaps_axes(Some(4)) && !swaps_axes(None));
}

#[test]
fn caps_shrink_what_exceeds_them() {
    assert!(exceeds_cap(5, 3, 4));
    assert!(!exceeds_cap(5, 3, u32::MAX));
    let small = cap_picture(numbered(2, 2), 4);
    assert_eq!(small, numbered(2, 2));
    let shrunk = cap_picture(numbered(8, 4), 4);
    assert_eq!((shrunk.width, shrunk.height), (4, 2));
}

#[test]
fn orientations_turn_and_mirror() {
    let turned = |orientation: u16| {
        let picture = apply_orientation(numbered(3, 2), Some(orientation));
        (picture.width, picture.height, numbers(&picture))
    };
    assert_eq!(turned(1), (3, 2, vec![0, 1, 2, 3, 4, 5]));
    assert_eq!(turned(2), (3, 2, vec![2, 1, 0, 5, 4, 3]));
    assert_eq!(turned(3), (3, 2, vec![5, 4, 3, 2, 1, 0]));
    assert_eq!(turned(4), (3, 2, vec![3, 4, 5, 0, 1, 2]));
    assert_eq!(turned(5), (2, 3, vec![0, 3, 1, 4, 2, 5]));
    assert_eq!(turned(6), (2, 3, vec![3, 0, 4, 1, 5, 2]));
    assert_eq!(turned(7), (2, 3, vec![5, 2, 4, 1, 3, 0]));
    assert_eq!(turned(8), (2, 3, vec![2, 5, 1, 4, 0, 3]));
    assert_eq!(numbers(&apply_orientation(numbered(3, 2), None)), vec![0, 1, 2, 3, 4, 5]);
}

// Videos.

#[test]
fn caps_video_dimensions_on_long_edge() {
    assert_eq!(capped_dimensions(4000, 2000, 1000), (1000, 500));
    assert_eq!(capped_dimensions(320, 240, 1000), (320, 240));
    assert!(checked_rgba_buffer_len(100_000, 100_000).is_err());
}

#[test]
fn applies_sample_aspect_ratio_before_capping() {
    assert_eq!(
        capped_dimensions_with_aspect(720, 576, u32::MAX, (16, 15)),
        (768, 576)
    );
    assert_eq!(capped_dimensions_with_aspect(720, 576, 400, (16, 15)), (400, 300));
}

#[test]
fn display_matrix_degrees_map_to_image_rotations() {
    assert_eq!(
        video_rotation_from_counter_clockwise_degrees(90),
        VideoRotation::CounterClockwise90
    );
    assert_eq!(
        video_rotation_from_counter_clockwise_degrees(-90),
        VideoRotation::Clockwise90
    );
    assert_eq!(
        video_rotation_from_counter_clockwise_degrees(180),
        VideoRotation::HalfTurn
    );
    let turned = apply_video_rotation(numbered(4, 2), VideoRotation::Clockwise90);
    assert_eq!((turned.width, turned.height), (2, 4));
}

#[test]
fn frames_are_turned_upright() {
    let turned = |rotation| numbers(&apply_video_rotation(numbered(3, 2), rotation));
    assert_eq!(turned(VideoRotation::Upright), vec![0, 1, 2, 3, 4, 5]);
    assert_eq!(turned(VideoRotation::Clockwise90), vec![3, 0, 4, 1, 5, 2]);
    assert_eq!(turned(VideoRotation::HalfTurn), vec![5, 4, 3, 2, 1, 0]);
    assert_eq!(turned(VideoRotation::CounterClockwise90), vec![2, 5, 1, 4, 0, 3]);
    assert_eq!(video_rotation_from_counter_clockwise_degrees(0), VideoRotation::Upright);
    assert_eq!(video_rotation_from_counter_clockwise_degrees(-450), VideoRotation::Clockwise90);
}

#[test]
fn decoder_only_swallows_retry_and_eof_errors() {
    assert!(decoder_needs_more_input(DecoderError::Retry));
    assert!(decoder_needs_more_input(DecoderError::EndOfStream));
    assert!(!decoder_needs_more_input(DecoderError::Failure));
}

#[test]
fn discards_seek_preroll_before_requested_target() {
    let target = 10 * SECOND;

    assert!(should_discard_seek_preroll(Some(9 * SECOND), target));
    assert!(!should_discard_seek_preroll(Some(target), target));
    assert!(!should_discard_seek_preroll(Some(11 * SECOND), target));
    assert!(!should_discard_seek_preroll(None, target));
    assert!(!should_discard_seek_preroll(Some(0), 0));
}

#[test]
fn frames_are_timed_from_the_first_that_is_shown() {
    let mut timeline = PlaybackTimeline::new(10 * SECOND, SECOND / 25, None);
    assert_eq!(timeline.next_frame(Some(9 * SECOND), false), None);
    assert_eq!(
        timeline.next_frame(Some(10 * SECOND), false),
        Some(DueFrame { pts: 10 * SECOND, relative: 0, at_once: false })
    );
    assert!(timeline.shows(false));
    timeline.note_sent();
    assert!(!timeline.shows(true));
    assert_eq!(
        timeline.next_frame(Some(12 * SECOND), false),
        Some(DueFrame { pts: 12 * SECOND, relative: 2 * SECOND, at_once: false })
    );
    let mut paused = PlaybackTimeline::new(0, SECOND, None);
    assert!(paused.next_frame(None, true).unwrap().at_once);
    assert_eq!(paused.next_frame(None, false).unwrap().pts, SECOND);
}

#[test]
fn waits_are_short_and_end() {
    assert_eq!(wait_step(true, 0, 0, SECOND), WaitStep::Stop);
    assert_eq!(wait_step(false, 0, 0, SECOND), WaitStep::Sleep(8_000_000));
    assert_eq!(wait_step(false, SECOND - 3, 0, SECOND), WaitStep::Sleep(3));
    assert_eq!(wait_step(false, SECOND, 0, SECOND), WaitStep::Show);
    assert_eq!(wait_step(false, SECOND, 1, SECOND), WaitStep::Sleep(1));
}

#[test]
fn seeks_count_microseconds() {
    assert_eq!(seek_timestamp(0), None);
    assert_eq!(seek_timestamp(1_500_000_000), Some(1_500_000));
    assert_eq!(duration_to_format_timestamp(u128::MAX), i64::MAX);
}

#[test]
fn frames_are_copied_row_by_row() {
    let data = vec![1, 2, 3, 4, 9, 9, 5, 6, 7, 8];
    let picture = rgba_image_from_frame(1, 2, 6, &data).unwrap();
    assert_eq!(picture.pixels, vec![1, 2, 3, 4, 5, 6, 7, 8]);
    assert_eq!(rgba_image_from_frame(0, 2, 0, &Vec::new()).unwrap().pixels, Vec::<u8>::new());
    assert_eq!(checked_rgba_buffer_len(usize::MAX, 2), Err(FrameError::TooLarge));
    assert!(!FrameError::TooLarge.message().is_empty());
}

#[test]
fn sound_is_planned_by_its_samples() {
    assert_eq!(plan_audio_frame(10, 2, 48_000, 80), Ok(Some(20)));
    assert_eq!(plan_audio_frame(0, 2, 48_000, 80), Ok(None));
    assert_eq!(plan_audio_frame(10, 2, 48_000, 79), Ok(None));
    assert_eq!(plan_audio_frame(10, 0, 48_000, 80), Err(AudioError::NoChannels));
    assert_eq!(plan_audio_frame(10, 2, 0, 80), Err(AudioError::NoRate));
    assert_eq!(plan_audio_frame(usize::MAX, 2, 48_000, 80), Err(AudioError::TooLarge));
    assert_eq!(AudioError::NoRate.message(), "audio has no sample rate");
    assert_eq!(usable_channel_layout(true, 6), LayoutChoice::Named);
    assert_eq!(usable_channel_layout(false, 6), LayoutChoice::Usual(6));
    assert_eq!(usable_channel_layout(false, 0), LayoutChoice::Stereo);
    assert_eq!((output_channels(0), output_channels(1), output_channels(6)), (1, 1, 2));
}

#[test]
fn pictures_are_shrunk_in_their_own_colours() {
    let deep = ImageBuffer::from_fn(6, 4, |x, y| {
        Rgba([(x * 9000 + y * 127) as u16, (y * 15000 + x * 129) as u16, 40_000u16, u16::MAX])
    });
    let image = DynamicImage::ImageRgba16(deep);
    let mut content = Vec::new();
    image.write_to(&mut Cursor::new(&mut content), ImageFormat::Png).unwrap();
    let expected = image.resize(3, 3, FilterType::Triangle).to_rgba8();
    let picture = decode(&content, "png", 3).unwrap();
    assert_eq!((picture.width, picture.height), (3, 2));
    assert_eq!(picture.pixels, expected.into_raw());
}

/// A picture in a file that says how it is turned.
fn turned_jpeg(width: u32, height: u32, orientation: u8) -> Vec<u8> {
    let content = jpeg(width, height, 90);
    let mut exif = b"Exif\0\0MM\0\x2a\0\0\0\x08\0\x01\x01\x12\0\x03\0\0\0\x01\0".to_vec();
    exif.extend([orientation, 0, 0, 0, 0, 0, 0]);
    let mut turned = content[..2].to_vec();
    turned.extend([0xff, 0xe1, 0, exif.len() as u8 + 2]);
    turned.extend(exif);
    turned.extend(&content[2..]);
    turned
}

#[test]
fn shrunk_pictures_are_turned_first() {
    let content = turned_jpeg(32, 16, 6);
    let picture = decode(&content, "jpg", 8).unwrap();
    assert_eq!((picture.width, picture.height), (4, 8));
    let image = image::load_from_memory(&content).unwrap().rotate90();
    let expected = image.resize(8, 8, FilterType::Triangle).to_rgba8();
    assert_eq!(picture.pixels, expected.into_raw());
    let whole = decode(&content, "jpg", 64).unwrap();
    assert_eq!((whole.width, whole.height), (16, 32));
}

/// Numbers of all sizes.
fn some_numbers(count: usize) -> Vec<u64> {
    let mut n: u64 = 99;
    let mut numbers = Vec::new();
    for i in 0..count {
        n = n.wrapping_mul(6364136223846793005).wrapping_add(1442695040888963407);
        numbers.push(n >> (i % 61));
    }
    numbers
}

fn value(x: Binary) -> f64 {
    x.mantissa as f64 * 2f64.powi(x.exponent)
}

#[test]
fn numbers_are_rounded_step_by_step() {
    let numbers = some_numbers(3000);
    for pair in numbers.windows(2) {
        let (a, b) = (pair[0], pair[1].max(1));
        let (x, y) = (Binary::from_whole(a as u128), Binary::from_whole(b as u128));
        let (f, g) = (a as f64, b as f64);
        assert_eq!(value(x), f);
        assert_eq!(value(x.quotient(y)), f / g);
        assert_eq!(value(x.product(y)), f * g);
        assert_eq!(value(x.sum(y)), f + g);
        let small = y.quotient(Binary::from_whole(u64::MAX as u128));
        assert_eq!(value(x.sum(small)), f + g / u64::MAX as f64);
        assert_eq!(x.at_most(y), f <= g);
        assert_eq!(value(x.least(y)), f.min(g));
        assert_eq!(value(x.most(y)), f.max(g));
        assert_eq!(x.quotient(y).to_u32(), (f / g).round() as u32);
    }
    assert_eq!(Binary::from_whole(0).to_u32(), 0);
    assert_eq!(Binary::from_whole(u64::MAX as u128).to_u32(), u32::MAX);
    assert_eq!(Binary::from_whole(5).quotient(Binary::from_whole(2)).to_u32(), 3);
}

#[test]
fn times_are_rounded_step_by_step() {
    for nanos in some_numbers(3000) {
        let duration = Duration::from_nanos(nanos);
        assert_eq!(value(seconds_of(nanos as u128)), duration.as_secs_f64());
        let back = Duration::from_secs_f64(duration.as_secs_f64()).as_nanos();
        assert_eq!(seconds_of(nanos as u128).to_nanoseconds(), back);
    }
    assert_eq!(Binary::from_whole(u64::MAX as u128).to_nanoseconds(), (1 << 64) * SECOND);
}

#[test]
fn sizes_are_scaled_by_a_rounded_number() {
    assert_eq!(contained_dimensions(90, 45, 63, 63), (63, 31));
    let numbers = some_numbers(4000);
    for four in numbers.chunks(4) {
        let (width, height) = (four[0] as usize, four[1] as usize);
        let (max_width, max_height) = (four[2] as u32, four[3] as u32);
        let w = width.max(1) as f64;
        let h = height.max(1) as f64;
        let scale = (max_width.max(1) as f64 / w).min(max_height.max(1) as f64 / h).min(1.0);
        let expected =
            ((w * scale).round().max(1.0) as u32, (h * scale).round().max(1.0) as u32);
        assert_eq!(contained_dimensions(width, height, max_width, max_height), expected);
    }
    for width in 1..200usize {
        for cap in 1..100u32 {
            let scale = (cap as f64 / width as f64).min(cap as f64 / 45.0).min(1.0);
            let expected = (
                (width as f64 * scale).round().max(1.0) as u32,
                (45.0 * scale).round().max(1.0) as u32,
            );
            assert_eq!(contained_dimensions(width, 45, cap, cap), expected);
        }
    }
}

#[test]
fn frames_are_capped_by_a_rounded_number() {
    let numbers = some_numbers(5000);
    for five in numbers.chunks(5) {
        let (width, height, cap) = (five[0] as u32, five[1] as u32, five[2] as u32);
        let ratio = (five[3] as i32, five[4] as i32);
        let aspect =
            if ratio.0 > 0 && ratio.1 > 0 { ratio.0 as f64 / ratio.1 as f64 } else { 1.0 };
        let across = width.max(1) as f64 * aspect;
        let down = height.max(1) as f64;
        let scale =
            if cap == u32::MAX { 1.0 } else { (cap as f64 / across.max(down)).min(1.0) };
        let expected = (
            ((across * scale).round() as u32).max(1),
            ((down * scale).round() as u32).max(1),
        );
        assert_eq!(capped_dimensions_with_aspect(width, height, cap, ratio), expected);
    }
}

#[test]
fn frames_without_a_position_are_spaced_by_a_rounded_number() {
    let third = Duration::from_secs_f64(1.0 / 30.0);
    let mut timeline = PlaybackTimeline::new(SECOND, third.as_nanos(), None);
    for count in 0..500u64 {
        timeline.fallback_index = count * 7919;
        let elapsed = Duration::from_secs_f64(third.as_secs_f64() * (count * 7919) as f64);
        let due = timeline.next_frame(None, false).unwrap();
        assert_eq!(due.pts, SECOND + elapsed.as_nanos());
    }
}

#[test]
fn timestamps_count_parts_of_a_second() {
    for (i, n) in some_numbers(3000).into_iter().enumerate() {
        let value = (n >> 1) as i64 % 10_000_000_000;
        let base = [(1, 90_000), (1, 1_000_000), (1001, 30_000), (1, 3)][i % 4];
        let seconds = value as f64 * (base.0 as f64 / base.1 as f64);
        let expected = Duration::from_secs_f64(seconds).as_nanos();
        assert_eq!(timestamp_to_duration(value, base), Some(expected));
    }
    assert_eq!(timestamp_to_duration(90_000, (1, 90_000)), Some(SECOND));
    assert_eq!(timestamp_to_duration(-1, (1, 90_000)), None);
    assert_eq!(timestamp_to_duration(1, (0, 90_000)), None);
    assert_eq!(format_duration(1_500_000), Some(1_500_000_000));
    assert_eq!(format_duration(0), None);
    assert_eq!(format_duration(i64::MIN), None);
}

#[test]
fn frame_rates_give_the_time_between_frames() {
    assert_eq!(frame_duration((25, 1)), 40_000_000);
    assert_eq!(frame_duration((0, 0)), 33_333_333);
    for rate in [(24_000, 1001), (30_000, 1001), (60, 1), (1, 7), (i32::MAX, 3)] {
        let expected = Duration::from_secs_f64(1.0 / (rate.0 as f64 / rate.1 as f64));
        assert_eq!(frame_duration(rate), expected.as_nanos());
    }
    for n in some_numbers(2000) {
        let (nanos, count) = (n >> 24, n & 0xffff);
        let once = Duration::from_nanos(nanos).as_secs_f64();
        let expected = Duration::from_secs_f64(once * count as f64).as_nanos();
        assert_eq!(mul_duration(nanos as u128, count), expected);
    }
}
