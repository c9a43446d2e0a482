//! What is decoded for the window, and what decoded media is kept.

use vstd::prelude::*;

use crate::assoc::Key;
use crate::path::{names_copy, MediaPath, PathNames};
use crate::slots::{key_of, KeyView, SlotKey};
use crate::state::{ImageKind, MediaKind, VideoKind};

verus! {

/// Long-edge cap for fit-to-window decodes. A fit view never needs more pixels
/// than a high-DPI monitor; the GPU handles any further downscaling.
pub const FIT_CAP: u32 = 3840;

/// Long-edge cap for grid thumbnails.
pub const THUMB_CAP: u32 = 320;

/// In what size a file is decoded.
#[derive(Debug, Clone, Copy, PartialEq, Eq, Hash, Structural)]
pub enum Variant {
    Fit,
    Original,
    Thumb,
}

impl Variant {
    /// The longest edge that a decoded image may have.
    pub open spec fn limit(self) -> u32 {
        match self {
            Variant::Fit => FIT_CAP,
            Variant::Original => u32::MAX,
            Variant::Thumb => THUMB_CAP,
        }
    }

    pub fn cap(self) -> (cap: u32)
        ensures
            cap == self.limit(),
    {
        match self {
            Variant::Fit => FIT_CAP,
            Variant::Original => u32::MAX,
            Variant::Thumb => THUMB_CAP,
        }
    }

    /// The number of the variant in slot keys.
    pub open spec fn number(self) -> u128 {
        match self {
            Variant::Fit => 0,
            Variant::Original => 1,
            Variant::Thumb => 2,
        }
    }

    fn to_number(self) -> (number: u128)
        ensures
            number == self.number(),
    {
        match self {
            Variant::Fit => 0,
            Variant::Original => 1,
            Variant::Thumb => 2,
        }
    }
}

/// The number of a kind of media in slot keys.
pub open spec fn kind_number(kind: MediaKind) -> u128 {
    match kind {
        MediaKind::Image(ImageKind::Jpeg) => 0,
        MediaKind::Image(ImageKind::Png) => 1,
        MediaKind::Image(ImageKind::WebP) => 2,
        MediaKind::Image(ImageKind::Gif) => 3,
        MediaKind::Image(ImageKind::Bmp) => 4,
        MediaKind::Image(ImageKind::Tiff) => 5,
        MediaKind::Image(ImageKind::Avif) => 6,
        MediaKind::Image(ImageKind::Qoi) => 7,
        MediaKind::Image(ImageKind::Ico) => 8,
        MediaKind::Video(VideoKind::Mp4) => 9,
        MediaKind::Video(VideoKind::M4v) => 10,
        MediaKind::Video(VideoKind::Mov) => 11,
        MediaKind::Video(VideoKind::Mkv) => 12,
        MediaKind::Video(VideoKind::WebM) => 13,
        MediaKind::Video(VideoKind::Avi) => 14,
        MediaKind::Video(VideoKind::Mpeg) => 15,
        MediaKind::Video(VideoKind::M2v) => 16,
        MediaKind::Video(VideoKind::TransportStream) => 17,
        MediaKind::Video(VideoKind::Wmv) => 18,
        MediaKind::Video(VideoKind::Flv) => 19,
        MediaKind::Video(VideoKind::ThreeGp) => 20,
        MediaKind::Video(VideoKind::Ogv) => 21,
    }
}

fn kind_to_number(kind: MediaKind) -> (number: u128)
    ensures
        number == kind_number(kind),
{
    match kind {
        MediaKind::Image(ImageKind::Jpeg) => 0,
        MediaKind::Image(ImageKind::Png) => 1,
        MediaKind::Image(ImageKind::WebP) => 2,
        MediaKind::Image(ImageKind::Gif) => 3,
        MediaKind::Image(ImageKind::Bmp) => 4,
        MediaKind::Image(ImageKind::Tiff) => 5,
        MediaKind::Image(ImageKind::Avif) => 6,
        MediaKind::Image(ImageKind::Qoi) => 7,
        MediaKind::Image(ImageKind::Ico) => 8,
        MediaKind::Video(VideoKind::Mp4) => 9,
        MediaKind::Video(VideoKind::M4v) => 10,
        MediaKind::Video(VideoKind::Mov) => 11,
        MediaKind::Video(VideoKind::Mkv) => 12,
        MediaKind::Video(VideoKind::WebM) => 13,
        MediaKind::Video(VideoKind::Avi) => 14,
        MediaKind::Video(VideoKind::Mpeg) => 15,
        MediaKind::Video(VideoKind::M2v) => 16,
        MediaKind::Video(VideoKind::TransportStream) => 17,
        MediaKind::Video(VideoKind::Wmv) => 18,
        MediaKind::Video(VideoKind::Flv) => 19,
        MediaKind::Video(VideoKind::ThreeGp) => 20,
        MediaKind::Video(VideoKind::Ogv) => 21,
    }
}

/// What a texture shows: a file in a size.
#[derive(Debug, PartialEq, Eq, Hash)]
pub struct TexKey {
    pub path: MediaPath,
    pub variant: Variant,
    pub media_kind: MediaKind,
}

/// The contents of a [`TexKey`].
pub struct TexKeyView {
    pub path: PathNames,
    pub variant: Variant,
    pub media_kind: MediaKind,
}

impl View for TexKey {
    type V = TexKeyView;

    open spec fn view(&self) -> TexKeyView {
        TexKeyView { path: self.path@, variant: self.variant, media_kind: self.media_kind }
    }
}

impl TexKeyView {
    /// The slot that the texture is kept in.
    pub open spec fn slot(self) -> KeyView {
        (self.path, Seq::empty(), seq![self.variant.number(), kind_number(self.media_kind)])
    }
}

impl Clone for TexKey {
    fn clone(&self) -> (copy: Self)
        ensures
            copy@ == self@,
    {
        TexKey { path: self.path.clone(), variant: self.variant, media_kind: self.media_kind }
    }
}

impl Key for TexKey {
    fn same(&self, other: &TexKey) -> (same: bool) {
        self.variant == other.variant && self.media_kind == other.media_kind && self.path.same(
            &other.path,
        )
    }
}

impl TexKey {
    /// The slot that the texture is kept in.
    pub fn slot_key(&self) -> (key: SlotKey)
        ensures
            key_of(key) == self@.slot(),
    {
        let mut numbers: Vec<u128> = Vec::new();
        numbers.push(self.variant.to_number());
        numbers.push(kind_to_number(self.media_kind));
        let key = (names_copy(&self.path.names), String::new(), numbers);
        assert(key.1@ =~= Seq::empty());
        assert(key.2@ =~= self@.slot().2);
        key
    }
}

/// Different textures are kept in different slots.
pub proof fn law_texture_slots_are_distinct(left: TexKeyView, right: TexKeyView)
    ensures
        left.slot() == right.slot() <==> left == right,
{
    if left.slot() == right.slot() {
        assert(left.slot().2[0] == right.slot().2[0]);
        assert(left.slot().2[1] == right.slot().2[1]);
    }
}

/// A file is decoded in full in its original size, to the size of a screen where it is to
/// fit the window, and smallest for the grid.
pub proof fn law_sizes_have_their_limits(variant: Variant)
    ensures
        Variant::Original.limit() == u32::MAX,
        Variant::Fit.limit() == 3840,
        Variant::Thumb.limit() == 320,
        Variant::Thumb.limit() <= variant.limit() <= Variant::Original.limit(),
{
}

} // verus!
