//! Thumbnails and previews for a terminal: what is asked for, what is kept, and
//! what failed.
//!
//! Rendering runs on worker threads outside. What they render is kept there under
//! numbers; here is which numbers are in use.

use vstd::prelude::*;

use crate::assoc::{map_get, map_has, map_with, set_without, Key, KeyMap, KeySet};
use crate::codec::{decoded_as, resample};
use crate::decode::{
    contained, contained_dimensions, content_orientation, decode_oriented,
    law_contained_size_fits, turns,
};
use crate::image_cache::{evict_to_budget, BudgetView};
use crate::metadata::orientation_for;
use crate::numbers::{least, max_u16, max_usize, most, saturating_product};
use crate::path::{names_copy, MediaPath, PathNames};
use crate::picture::Picture;
use crate::slots::{
    has_slot, held_by, key_of, made_room, slot_bytes, CacheView, KeyView, SlotCache, SlotKey,
    SlotView,
};
use crate::state::{EntryView, MediaEntry, ZoomMode};
use crate::text::same_text;

verus! {

/// A time in nanoseconds since the Unix epoch, where it is not before it.
pub open spec fn nanos_since_epoch(time: Option<i128>) -> Option<u128> {
    match time {
        Some(nanos) => if nanos >= 0 {
            Some(nanos as u128)
        } else {
            None
        },
        None => None,
    }
}

fn system_time_nanos(time: Option<i128>) -> (nanos: Option<u128>)
    ensures
        nanos == nanos_since_epoch(time),
{
    match time {
        Some(nanos) => if nanos >= 0 {
            Some(nanos as u128)
        } else {
            None
        },
        None => None,
    }
}

/// The size of an image in a number of cells of a font: scaled down to fit, its
/// proportions kept.
pub open spec fn thumbnail_size(
    image: (u32, u32),
    width_cells: u16,
    height_cells: u16,
    font: (u16, u16),
) -> (int, int) {
    contained(
        image.0 as int,
        image.1 as int,
        most(width_cells as int, 1) * most(font.0 as int, 1),
        most(height_cells as int, 1) * most(font.1 as int, 1),
    )
}

/// A thumbnail is no larger than its cells, nor than its image.
pub proof fn law_thumbnail_fits(
    image: (u32, u32),
    width_cells: u16,
    height_cells: u16,
    font: (u16, u16),
)
    ensures
        1 <= thumbnail_size(image, width_cells, height_cells, font).0 <= most(
            width_cells as int,
            1,
        ) * most(font.0 as int, 1),
        1 <= thumbnail_size(image, width_cells, height_cells, font).1 <= most(
            height_cells as int,
            1,
        ) * most(font.1 as int, 1),
        thumbnail_size(image, width_cells, height_cells, font).0 <= most(image.0 as int, 1),
        thumbnail_size(image, width_cells, height_cells, font).1 <= most(image.1 as int, 1),
{
    let max_width = most(width_cells as int, 1) * most(font.0 as int, 1);
    let max_height = most(height_cells as int, 1) * most(font.1 as int, 1);
    assert(1 <= max_width <= 0xffff * 0xffff) by (nonlinear_arith)
        requires
            max_width == most(width_cells as int, 1) * most(font.0 as int, 1),
            1 <= most(width_cells as int, 1) <= 0xffff,
            1 <= most(font.0 as int, 1) <= 0xffff,
    ;
    assert(1 <= max_height <= 0xffff * 0xffff) by (nonlinear_arith)
        requires
            max_height == most(height_cells as int, 1) * most(font.1 as int, 1),
            1 <= most(height_cells as int, 1) <= 0xffff,
            1 <= most(font.1 as int, 1) <= 0xffff,
    ;
    law_contained_size_fits(
        most(image.0 as int, 1),
        most(image.1 as int, 1),
        max_width,
        max_height,
    );
}

/// The size of an image in a number of cells of a font.
pub fn thumbnail_pixel_size(
    image: (u32, u32),
    width_cells: u16,
    height_cells: u16,
    font: (u16, u16),
) -> (size: (u32, u32))
    ensures
        (size.0 as int, size.1 as int) == thumbnail_size(image, width_cells, height_cells, font),
{
    proof {
        assert(1 <= most(width_cells as int, 1) * most(font.0 as int, 1) <= 0xffff * 0xffff)
            by (nonlinear_arith)
            requires
                1 <= most(width_cells as int, 1) <= 0xffff,
                1 <= most(font.0 as int, 1) <= 0xffff,
        ;
        assert(1 <= most(height_cells as int, 1) * most(font.1 as int, 1) <= 0xffff * 0xffff)
            by (nonlinear_arith)
            requires
                1 <= most(height_cells as int, 1) <= 0xffff,
                1 <= most(font.1 as int, 1) <= 0xffff,
        ;
    }
    let max_width: u32 = max_u16(width_cells, 1) as u32 * max_u16(font.0, 1) as u32;
    let max_height: u32 = max_u16(height_cells, 1) as u32 * max_u16(font.1, 1) as u32;
    contained_dimensions(image.0 as usize, image.1 as usize, max_width, max_height)
}

/// Scales a picture down to a number of cells of a font. Nothing is said of the pixels
/// of a picture that is scaled.
pub fn shrink_to_cells(
    full: Picture,
    width_cells: u16,
    height_cells: u16,
    font: (u16, u16),
) -> (thumbnail: Picture)
    requires
        full.sound(),
    ensures
        thumbnail.sound(),
        (thumbnail.width as int, thumbnail.height as int) == thumbnail_size(
            (full.width, full.height),
            width_cells,
            height_cells,
            font,
        ),
        thumbnail.width == full.width && thumbnail.height == full.height ==> thumbnail.pixels@
            == full.pixels@,
{
    let size = thumbnail_pixel_size((full.width, full.height), width_cells, height_cells, font);
    proof {
        law_thumbnail_fits((full.width, full.height), width_cells, height_cells, font);
    }
    resample(full, size.0, size.1)
}

/// Decodes a thumbnail: an image in the format that its extension names, turned as an
/// orientation says and scaled down to a number of cells of a font. Nothing is said of
/// the pixels of a scaled thumbnail.
pub fn decode_resize(
    content: &Vec<u8>,
    extension: &str,
    width_cells: u16,
    height_cells: u16,
    font: (u16, u16),
    orientation: Option<u16>,
) -> (result: Option<Picture>)
    ensures
        match result {
            Some(thumbnail) => {
                &&& thumbnail.sound()
                &&& decoded_as(content@, extension@) is Some
                &&& exists|full: Picture|
                    #[trigger] turns(
                        decoded_as(content@, extension@).unwrap(),
                        full,
                        orientation,
                    ) && (thumbnail.width as int, thumbnail.height as int) == thumbnail_size(
                        (full.width, full.height),
                        width_cells,
                        height_cells,
                        font,
                    ) && (thumbnail.width == full.width && thumbnail.height == full.height
                        ==> thumbnail.pixels@ == full.pixels@)
            },
            None => decoded_as(content@, extension@) is None,
        },
{
    let full = match decode_oriented(content, extension, orientation) {
        Some(full) => full,
        None => {
            return None;
        },
    };
    Some(shrink_to_cells(full, width_cells, height_cells, font))
}

/// Decodes a thumbnail for cells of ten by twenty pixels, turned as the EXIF metadata of
/// its image say.
pub fn generate_thumbnail_for_test(
    content: &Vec<u8>,
    extension: &str,
    width_cells: u16,
    height_cells: u16,
) -> (result: Option<Picture>)
    ensures
        match result {
            Some(thumbnail) => {
                &&& thumbnail.sound()
                &&& decoded_as(content@, extension@) is Some
                &&& exists|full: Picture|
                    #[trigger] turns(
                        decoded_as(content@, extension@).unwrap(),
                        full,
                        content_orientation(content@),
                    ) && (thumbnail.width as int, thumbnail.height as int) == thumbnail_size(
                        (full.width, full.height),
                        width_cells,
                        height_cells,
                        (10, 20),
                    ) && (thumbnail.width == full.width && thumbnail.height == full.height
                        ==> thumbnail.pixels@ == full.pixels@)
            },
            None => decoded_as(content@, extension@) is None,
        },
{
    let orientation = orientation_for(None, content);
    decode_resize(content, extension, width_cells, height_cells, (10, 20), orientation)
}

/// The bytes of an image, four for each pixel.
pub fn image_byte_len(image: (u32, u32)) -> (bytes: usize)
    requires
        4 * image.0 * image.1 <= usize::MAX,
    ensures
        bytes == 4 * image.0 * image.1,
{
    proof {
        assert(image.0 * image.1 <= 4 * image.0 * image.1) by (nonlinear_arith)
            requires
                0 <= image.0,
                0 <= image.1,
        ;
        assert(4 * image.0 * image.1 == 4 * (image.0 * image.1)) by (nonlinear_arith);
    }
    image.0 as usize * image.1 as usize * 4
}

/// What a thumbnail shows: a version of a file, in a number of cells, by a
/// renderer.
#[derive(Debug, PartialEq, Eq, Hash)]
pub struct ThumbKey {
    pub path: MediaPath,
    pub file_len: u64,
    pub modified_nanos: Option<u128>,
    pub width_cells: u16,
    pub height_cells: u16,
    pub backend_id: String,
}

/// The contents of a [`ThumbKey`].
pub struct ThumbKeyView {
    pub path: PathNames,
    pub file_len: u64,
    pub modified_nanos: Option<u128>,
    pub width_cells: u16,
    pub height_cells: u16,
    pub backend_id: Seq<char>,
}

impl View for ThumbKey {
    type V = ThumbKeyView;

    open spec fn view(&self) -> ThumbKeyView {
        ThumbKeyView {
            path: self.path@,
            file_len: self.file_len,
            modified_nanos: self.modified_nanos,
            width_cells: self.width_cells,
            height_cells: self.height_cells,
            backend_id: self.backend_id@,
        }
    }
}

/// Whether two optional numbers are the same.
fn same_number(left: Option<u128>, right: Option<u128>) -> (same: bool)
    ensures
        same == (left == right),
{
    match (left, right) {
        (Some(a), Some(b)) => a == b,
        (None, None) => true,
        _ => false,
    }
}

impl Key for ThumbKey {
    fn same(&self, other: &ThumbKey) -> (same: bool) {
        self.file_len == other.file_len && same_number(self.modified_nanos, other.modified_nanos)
            && self.width_cells == other.width_cells && self.height_cells == other.height_cells
            && same_text(self.backend_id.as_str(), other.backend_id.as_str()) && self.path.same(
            &other.path,
        )
    }
}

impl Clone for ThumbKey {
    fn clone(&self) -> (copy: Self)
        ensures
            copy@ == self@,
    {
        ThumbKey {
            path: self.path.clone(),
            file_len: self.file_len,
            modified_nanos: self.modified_nanos,
            width_cells: self.width_cells,
            height_cells: self.height_cells,
            backend_id: self.backend_id.clone(),
        }
    }
}

/// An optional number as two numbers.
pub open spec fn number_pair(number: Option<u128>) -> (u128, u128) {
    match number {
        Some(value) => (1, value),
        None => (0, 0),
    }
}

impl ThumbKeyView {
    /// The slot that the thumbnail is kept in.
    pub open spec fn slot(self) -> KeyView {
        (
            self.path,
            self.backend_id,
            seq![
                self.file_len as u128,
                number_pair(self.modified_nanos).0,
                number_pair(self.modified_nanos).1,
                self.width_cells as u128,
                self.height_cells as u128,
            ],
        )
    }
}

/// The key of an entry's thumbnail.
pub open spec fn thumb_key(
    entry: EntryView,
    width_cells: u16,
    height_cells: u16,
    backend_id: Seq<char>,
) -> ThumbKeyView {
    ThumbKeyView {
        path: entry.path,
        file_len: entry.file_len,
        modified_nanos: nanos_since_epoch(entry.modified),
        width_cells,
        height_cells,
        backend_id,
    }
}

impl ThumbKey {
    /// The key of an entry's thumbnail.
    pub fn for_entry(
        entry: &MediaEntry,
        width_cells: u16,
        height_cells: u16,
        backend_id: &str,
    ) -> (key: ThumbKey)
        ensures
            key@ == thumb_key(entry@, width_cells, height_cells, backend_id@),
    {
        ThumbKey {
            path: entry.path.clone(),
            file_len: entry.file_len,
            modified_nanos: system_time_nanos(entry.modified),
            width_cells,
            height_cells,
            backend_id: backend_id.to_owned(),
        }
    }

    /// The slot that the thumbnail is kept in.
    pub fn slot_key(&self) -> (key: SlotKey)
        ensures
            key_of(key) == self@.slot(),
    {
        let (known, nanos) = match self.modified_nanos {
            Some(nanos) => (1u128, nanos),
            None => (0u128, 0u128),
        };
        let numbers: Vec<u128> = vec![
            self.file_len as u128,
            known,
            nanos,
            self.width_cells as u128,
            self.height_cells as u128,
        ];
        let key = (names_copy(&self.path.names), self.backend_id.clone(), numbers);
        assert(key.2@ =~= self@.slot().2);
        key
    }
}

/// Different thumbnails are kept in different slots.
pub proof fn law_thumbnail_slots_are_distinct(left: ThumbKeyView, right: ThumbKeyView)
    ensures
        left.slot() == right.slot() <==> left == right,
{
    if left.slot() == right.slot() {
        let (a, b) = (left.slot().2, right.slot().2);
        assert(a[0] == b[0] && a[1] == b[1] && a[2] == b[2] && a[3] == b[3] && a[4] == b[4]);
    }
}

/// What a preview shows: a version of a file, in a number of cells and a zoom, by
/// a renderer.
#[derive(Debug, PartialEq, Eq, Hash)]
pub struct PreviewKey {
    pub path: MediaPath,
    pub file_len: u64,
    pub modified_nanos: Option<u128>,
    pub width_cells: u16,
    pub height_cells: u16,
    pub zoom: ZoomMode,
    pub backend_id: String,
}

/// The contents of a [`PreviewKey`].
pub struct PreviewKeyView {
    pub path: PathNames,
    pub file_len: u64,
    pub modified_nanos: Option<u128>,
    pub width_cells: u16,
    pub height_cells: u16,
    pub zoom: ZoomMode,
    pub backend_id: Seq<char>,
}

impl View for PreviewKey {
    type V = PreviewKeyView;

    open spec fn view(&self) -> PreviewKeyView {
        PreviewKeyView {
            path: self.path@,
            file_len: self.file_len,
            modified_nanos: self.modified_nanos,
            width_cells: self.width_cells,
            height_cells: self.height_cells,
            zoom: self.zoom,
            backend_id: self.backend_id@,
        }
    }
}

impl Key for PreviewKey {
    fn same(&self, other: &PreviewKey) -> (same: bool) {
        self.file_len == other.file_len && same_number(self.modified_nanos, other.modified_nanos)
            && self.width_cells == other.width_cells && self.height_cells == other.height_cells
            && self.zoom == other.zoom && same_text(
            self.backend_id.as_str(),
            other.backend_id.as_str(),
        ) && self.path.same(&other.path)
    }
}

impl Clone for PreviewKey {
    fn clone(&self) -> (copy: Self)
        ensures
            copy@ == self@,
    {
        PreviewKey {
            path: self.path.clone(),
            file_len: self.file_len,
            modified_nanos: self.modified_nanos,
            width_cells: self.width_cells,
            height_cells: self.height_cells,
            zoom: self.zoom,
            backend_id: self.backend_id.clone(),
        }
    }
}

/// The number of a zoom in slot keys.
pub open spec fn zoom_number(zoom: ZoomMode) -> u128 {
    match zoom {
        ZoomMode::Fit => 0,
        ZoomMode::OriginalPixels => 1,
    }
}

impl PreviewKeyView {
    /// The slot that the preview is kept in.
    pub open spec fn slot(self) -> KeyView {
        (
            self.path,
            self.backend_id,
            seq![
                self.file_len as u128,
                number_pair(self.modified_nanos).0,
                number_pair(self.modified_nanos).1,
                self.width_cells as u128,
                self.height_cells as u128,
                zoom_number(self.zoom),
            ],
        )
    }
}

/// The key of an entry's preview.
pub open spec fn preview_key(
    entry: EntryView,
    width_cells: u16,
    height_cells: u16,
    zoom: ZoomMode,
    backend_id: Seq<char>,
) -> PreviewKeyView {
    PreviewKeyView {
        path: entry.path,
        file_len: entry.file_len,
        modified_nanos: nanos_since_epoch(entry.modified),
        width_cells,
        height_cells,
        zoom,
        backend_id,
    }
}

impl PreviewKey {
    /// The key of an entry's preview.
    pub fn for_entry(
        entry: &MediaEntry,
        width_cells: u16,
        height_cells: u16,
        zoom: ZoomMode,
        backend_id: &str,
    ) -> (key: PreviewKey)
        ensures
            key@ == preview_key(entry@, width_cells, height_cells, zoom, backend_id@),
    {
        PreviewKey {
            path: entry.path.clone(),
            file_len: entry.file_len,
            modified_nanos: system_time_nanos(entry.modified),
            width_cells,
            height_cells,
            zoom,
            backend_id: backend_id.to_owned(),
        }
    }

    /// The slot that the preview is kept in.
    pub fn slot_key(&self) -> (key: SlotKey)
        ensures
            key_of(key) == self@.slot(),
    {
        let (known, nanos) = match self.modified_nanos {
            Some(nanos) => (1u128, nanos),
            None => (0u128, 0u128),
        };
        let zoom: u128 = match self.zoom {
            ZoomMode::Fit => 0,
            ZoomMode::OriginalPixels => 1,
        };
        let numbers: Vec<u128> = vec![
            self.file_len as u128,
            known,
            nanos,
            self.width_cells as u128,
            self.height_cells as u128,
            zoom,
        ];
        let key = (names_copy(&self.path.names), self.backend_id.clone(), numbers);
        assert(key.2@ =~= self@.slot().2);
        key
    }
}

/// Different previews are kept in different slots.
pub proof fn law_preview_slots_are_distinct(left: PreviewKeyView, right: PreviewKeyView)
    ensures
        left.slot() == right.slot() <==> left == right,
{
    if left.slot() == right.slot() {
        let (a, b) = (left.slot().2, right.slot().2);
        assert(a[0] == b[0] && a[1] == b[1] && a[2] == b[2] && a[3] == b[3] && a[4] == b[4]
            && a[5] == b[5]);
    }
}

/// Rendered media, within a number of slots and a budget of bytes.
pub struct ProtocolCache {
    cache: SlotCache,
    current_bytes: usize,
    budget_bytes: usize,
}

impl View for ProtocolCache {
    type V = BudgetView;

    closed spec fn view(&self) -> BudgetView {
        BudgetView {
            cache: self.cache@,
            current_bytes: self.current_bytes,
            budget_bytes: self.budget_bytes,
        }
    }
}

/// The bytes that storing a slot with a key gives back.
pub open spec fn room_bytes(cache: CacheView, key: KeyView) -> int {
    match made_room(cache.slots, cache.capacity, key) {
        Some(slot) => slot.2 as int,
        None => 0,
    }
}

impl BudgetView {
    /// The cache without slots.
    pub open spec fn emptied(self) -> BudgetView {
        BudgetView { cache: self.cache.emptied(), current_bytes: 0, ..self }
    }

    /// The cache after the slot with a key was used.
    pub open spec fn used(self, key: KeyView) -> BudgetView {
        BudgetView { cache: self.cache.used(key), ..self }
    }

    /// The cache after a slot was stored, which gives back the bytes of the slot
    /// that made room for it.
    pub open spec fn rendered(self, slot: SlotView) -> BudgetView {
        self.stored(slot, room_bytes(self.cache, slot.0))
    }

    /// The cache with room for a number of slots, at least.
    pub open spec fn grown(self, min_capacity: int) -> BudgetView {
        let capacity = most(min_capacity, 1);
        if capacity > self.cache.capacity {
            BudgetView {
                cache: CacheView {
                    slots: if self.cache.slots.len() > capacity {
                        self.cache.slots.take(capacity)
                    } else {
                        self.cache.slots
                    },
                    capacity: capacity as nat,
                },
                ..self
            }
        } else {
            self
        }
    }
}

impl ProtocolCache {
    /// A cache without slots.
    pub fn new(capacity: usize, budget_bytes: usize) -> (cache: ProtocolCache)
        ensures
            cache@ == (BudgetView {
                cache: CacheView {
                    slots: Seq::empty(),
                    capacity: most(capacity as int, 1) as nat,
                },
                current_bytes: 0,
                budget_bytes: most(budget_bytes as int, 1) as usize,
            }),
    {
        ProtocolCache {
            cache: SlotCache::new(max_usize(capacity, 1)),
            current_bytes: 0,
            budget_bytes: max_usize(budget_bytes, 1),
        }
    }

    /// Uses the slot with a key.
    pub fn get(&mut self, key: &SlotKey) -> (protocol: Option<u64>)
        ensures
            protocol == match held_by(old(self)@.cache.slots, key_of(*key)) {
                Some(value) => Some(value.0),
                None => None,
            },
            final(self)@ == old(self)@.used(key_of(*key)),
    {
        match self.cache.get(key) {
            Some((protocol, _)) => Some(protocol),
            None => None,
        }
    }

    /// Stores a slot.
    pub fn insert(&mut self, key: SlotKey, protocol: u64, bytes: usize)
        ensures
            final(self)@ == old(self)@.rendered((key_of(key), protocol, bytes)),
    {
        match self.cache.push(key, (protocol, bytes)) {
            Some((_, (_, previous))) => {
                self.current_bytes = self.current_bytes.saturating_sub(previous);
            },
            None => {},
        }
        self.current_bytes = self.current_bytes.saturating_add(bytes);
        self.current_bytes =
        evict_to_budget(&mut self.cache, self.current_bytes, self.budget_bytes);
    }

    /// Whether there is a slot with a key.
    pub fn contains(&self, key: &SlotKey) -> (found: bool)
        ensures
            found == has_slot(self@.cache.slots, key_of(*key)),
    {
        self.cache.contains(key)
    }

    /// Takes every slot out.
    pub fn clear(&mut self)
        ensures
            final(self)@ == old(self)@.emptied(),
    {
        self.cache.clear();
        self.current_bytes = 0;
    }

    /// The bytes that the slots may have together.
    pub fn budget_bytes(&self) -> (bytes: usize)
        ensures
            bytes == self@.budget_bytes,
    {
        self.budget_bytes
    }

    /// The number of slots that there is room for.
    pub fn capacity(&self) -> (capacity: usize)
        ensures
            capacity == self@.cache.capacity,
    {
        self.cache.capacity()
    }

    /// Makes room for a number of slots, at least.
    pub fn ensure_capacity_at_least(&mut self, min_capacity: usize)
        ensures
            final(self)@ == old(self)@.grown(min_capacity as int),
    {
        let min_capacity: usize = max_usize(min_capacity, 1);
        if min_capacity > self.capacity() {
            self.cache.resize(min_capacity);
        }
    }
}

proof fn lemma_bytes_joined(left: Seq<SlotView>, right: Seq<SlotView>)
    ensures
        slot_bytes(left + right) == slot_bytes(left) + slot_bytes(right),
    decreases right.len(),
{
    if right.len() == 0 {
        assert(left + right =~= left);
    } else {
        lemma_bytes_joined(left, right.drop_last());
        assert((left + right).drop_last() =~= left + right.drop_last());
    }
}

proof fn lemma_bytes_removed(slots: Seq<SlotView>, index: int)
    requires
        0 <= index < slots.len(),
    ensures
        slot_bytes(slots.remove(index)) == slot_bytes(slots) - slots[index].2,
{
    let front = slots.take(index);
    let one = seq![slots[index]];
    let back = slots.skip(index + 1);
    assert(slots =~= front + one + back);
    assert(slots.remove(index) =~= front + back);
    lemma_bytes_joined(front + one, back);
    lemma_bytes_joined(front, one);
    lemma_bytes_joined(front, back);
    assert(one.drop_last() =~= Seq::empty());
    assert(slot_bytes(one) == slots[index].2) by {
        reveal_with_fuel(slot_bytes, 2);
    }
}

proof fn lemma_bytes_nonnegative(slots: Seq<SlotView>)
    ensures
        slot_bytes(slots) >= 0,
    decreases slots.len(),
{
    if slots.len() > 0 {
        lemma_bytes_nonnegative(slots.drop_last());
    }
}

proof fn lemma_eviction_counts_bytes(view: BudgetView)
    requires
        view.current_bytes == slot_bytes(view.cache.slots),
        view.cache.sound(),
    ensures
        view.evicted().current_bytes == slot_bytes(view.evicted().cache.slots),
        view.evicted().cache.sound(),
    decreases view.cache.slots.len(),
{
    if view.current_bytes > view.budget_bytes && view.cache.slots.len() > 0 {
        lemma_bytes_nonnegative(view.cache.slots.drop_last());
        lemma_eviction_counts_bytes(
            BudgetView {
                cache: view.cache.popped(),
                current_bytes: most(view.current_bytes - view.cache.slots.last().2, 0) as usize,
                ..view
            },
        );
    }
}

/// A cache that counts the bytes of its slots right goes on doing so when one is
/// stored, and has no more bytes than its budget then.
pub proof fn law_rendered_bytes_are_counted(view: BudgetView, slot: SlotView)
    requires
        view.cache.sound(),
        view.current_bytes == slot_bytes(view.cache.slots),
        slot_bytes(view.cache.slots) + slot.2 <= usize::MAX,
    ensures
        view.rendered(slot).cache.sound(),
        view.rendered(slot).current_bytes == slot_bytes(view.rendered(slot).cache.slots),
        slot_bytes(view.rendered(slot).cache.slots) <= view.budget_bytes,
{
    let slots = view.cache.slots;
    let one = seq![slot];
    let stored = view.cache.stored(slot);
    crate::slots::law_cache_stays_sound(view.cache, slot.0, slot);
    assert(slot_bytes(one) == slot.2) by {
        reveal_with_fuel(slot_bytes, 2);
        assert(one.drop_last() =~= Seq::empty());
    }
    if has_slot(slots, slot.0) {
        let index = crate::slots::slot_index(slots, slot.0);
        lemma_bytes_removed(slots, index);
        lemma_bytes_nonnegative(slots.remove(index));
        lemma_bytes_joined(one, slots.remove(index));
    } else if slots.len() == view.cache.capacity {
        lemma_bytes_nonnegative(slots.drop_last());
        lemma_bytes_joined(one, slots.drop_last());
    } else {
        lemma_bytes_joined(one, slots);
    }
    let counted = BudgetView {
        cache: stored,
        current_bytes: least(
            most(view.current_bytes - room_bytes(view.cache, slot.0), 0) + slot.2,
            usize::MAX as int,
        ) as usize,
        ..view
    };
    lemma_bytes_nonnegative(stored.slots);
    lemma_eviction_counts_bytes(counted);
    crate::image_cache::law_eviction_meets_budget(counted);
}

/// What is known of a thumbnail.
#[derive(Debug)]
pub enum ThumbnailStatus {
    Ready { key: ThumbKey, protocol: u64 },
    Loading,
    Failed(String),
}

/// What is known of a preview.
#[derive(Debug)]
pub enum PreviewStatus {
    Ready { key: PreviewKey, protocol: u64 },
    Loading,
    Failed(String),
}

/// What is known of rendered media.
pub enum StatusView {
    Ready(u64),
    Loading,
    Failed(Seq<char>),
}

/// A thumbnail to render.
#[derive(Debug)]
pub struct ThumbJob {
    pub key: ThumbKey,
    pub generation: u64,
    pub orientation: Option<u16>,
}

/// A preview to render.
#[derive(Debug)]
pub struct PreviewJob {
    pub key: PreviewKey,
    pub generation: u64,
    pub orientation: Option<u16>,
}

/// A rendered thumbnail, or why there is none.
#[derive(Debug)]
pub struct ThumbResult {
    pub key: ThumbKey,
    pub generation: u64,
    pub result: Result<u64, String>,
    pub bytes: usize,
}

/// A rendered preview, or why there is none.
#[derive(Debug)]
pub struct PreviewResult {
    pub key: PreviewKey,
    pub generation: u64,
    pub result: Result<u64, String>,
    pub bytes: usize,
}

/// What a worker rendered.
#[derive(Debug)]
pub enum RenderResult {
    Thumbnail(ThumbResult),
    Preview(PreviewResult),
}

/// What is asked for, what is kept, and what failed.
pub struct ThumbnailService {
    pub thumbnail_cache: ProtocolCache,
    pub preview_cache: ProtocolCache,
    pub thumbnail_failures: KeyMap<ThumbKey, String>,
    pub preview_failures: KeyMap<PreviewKey, String>,
    pub thumbnail_inflight: KeySet<ThumbKey>,
    pub preview_inflight: KeySet<PreviewKey>,
    /// Whether a renderer is known.
    pub configured: bool,
    pub backend_id: String,
}

/// The contents of a [`ThumbnailService`].
pub struct ServiceView {
    pub thumbnails: BudgetView,
    pub previews: BudgetView,
    pub thumbnail_failures: Seq<(ThumbKeyView, Seq<char>)>,
    pub preview_failures: Seq<(PreviewKeyView, Seq<char>)>,
    pub thumbnail_inflight: Seq<ThumbKeyView>,
    pub preview_inflight: Seq<PreviewKeyView>,
    pub configured: bool,
    pub backend_id: Seq<char>,
}

impl View for ThumbnailService {
    type V = ServiceView;

    open spec fn view(&self) -> ServiceView {
        ServiceView {
            thumbnails: self.thumbnail_cache@,
            previews: self.preview_cache@,
            thumbnail_failures: self.thumbnail_failures@,
            preview_failures: self.preview_failures@,
            thumbnail_inflight: self.thumbnail_inflight@,
            preview_inflight: self.preview_inflight@,
            configured: self.configured,
            backend_id: self.backend_id@,
        }
    }
}

/// The number of slots for thumbnails.
pub const THUMBNAIL_SLOTS: usize = 4096;

/// The number of slots for previews, at first.
pub const PREVIEW_SLOTS: usize = 5;

/// A number of cells that is not zero.
pub open spec fn some_cells(cells: u16) -> u16 {
    if cells == 0 {
        1
    } else {
        cells
    }
}

fn at_least_one(cells: u16) -> (result: u16)
    ensures
        result == some_cells(cells),
{
    if cells == 0 {
        1
    } else {
        cells
    }
}

/// The bytes in a number of mebibytes, as far as they fit; at least one.
pub open spec fn cache_budget(megabytes: usize) -> usize {
    most(least(megabytes * 1_048_576, usize::MAX as int), 1) as usize
}

impl ServiceView {
    /// The service without anything rendered, asked for or failed.
    pub open spec fn forgotten(self) -> ServiceView {
        ServiceView {
            thumbnails: self.thumbnails.emptied(),
            previews: self.previews.emptied(),
            ..self.renewed()
        }
    }

    /// The service without anything asked for or failed.
    pub open spec fn renewed(self) -> ServiceView {
        ServiceView {
            thumbnail_failures: Seq::empty(),
            preview_failures: Seq::empty(),
            thumbnail_inflight: Seq::empty(),
            preview_inflight: Seq::empty(),
            ..self
        }
    }

    /// Whether a thumbnail is to be asked for: it is not there, has not failed, is
    /// not being rendered, and can be.
    pub open spec fn asks_thumbnail(self, key: ThumbKeyView, room: bool) -> bool {
        !has_slot(self.thumbnails.cache.slots, key.slot()) && !map_has(
            self.thumbnail_failures,
            key,
        ) && !self.thumbnail_inflight.contains(key) && self.configured && room
    }

    /// Whether a preview is to be asked for.
    pub open spec fn asks_preview(self, key: PreviewKeyView, room: bool) -> bool {
        !has_slot(self.previews.cache.slots, key.slot()) && !map_has(self.preview_failures, key)
            && !self.preview_inflight.contains(key) && self.configured && room
    }

    /// The service after a thumbnail was asked for, where it is to be.
    pub open spec fn thumbnail_asked(self, key: ThumbKeyView, room: bool) -> ServiceView {
        if self.asks_thumbnail(key, room) {
            ServiceView { thumbnail_inflight: self.thumbnail_inflight.push(key), ..self }
        } else {
            self
        }
    }

    /// The service after a preview was asked for, where it is to be.
    pub open spec fn preview_asked(self, key: PreviewKeyView, room: bool) -> ServiceView {
        if self.asks_preview(key, room) {
            ServiceView { preview_inflight: self.preview_inflight.push(key), ..self }
        } else {
            self
        }
    }

    /// What is known of a thumbnail.
    pub open spec fn thumbnail_status(self, key: ThumbKeyView) -> StatusView {
        match held_by(self.thumbnails.cache.slots, key.slot()) {
            Some(value) => StatusView::Ready(value.0),
            None => match map_get(self.thumbnail_failures, key) {
                Some(error) => StatusView::Failed(error),
                None => StatusView::Loading,
            },
        }
    }

    /// What is known of a preview.
    pub open spec fn preview_status(self, key: PreviewKeyView) -> StatusView {
        match held_by(self.previews.cache.slots, key.slot()) {
            Some(value) => StatusView::Ready(value.0),
            None => match map_get(self.preview_failures, key) {
                Some(error) => StatusView::Failed(error),
                None => StatusView::Loading,
            },
        }
    }

    /// The service after a thumbnail was used.
    pub open spec fn thumbnail_used(self, key: ThumbKeyView) -> ServiceView {
        ServiceView { thumbnails: self.thumbnails.used(key.slot()), ..self }
    }

    /// The service after a preview was used.
    pub open spec fn preview_used(self, key: PreviewKeyView) -> ServiceView {
        ServiceView { previews: self.previews.used(key.slot()), ..self }
    }

    /// The service after a thumbnail came in. What belongs to an earlier generation
    /// is dropped.
    pub open spec fn thumbnail_accepted(self, result: ThumbResult, active: u64) -> ServiceView {
        let settled = ServiceView {
            thumbnail_inflight: set_without(self.thumbnail_inflight, result.key@),
            ..self
        };
        if result.generation != active {
            settled
        } else {
            match result.result {
                Ok(protocol) => ServiceView {
                    thumbnails: self.thumbnails.rendered(
                        (result.key@.slot(), protocol, result.bytes),
                    ),
                    ..settled
                },
                Err(error) => ServiceView {
                    thumbnail_failures: map_with(
                        self.thumbnail_failures,
                        result.key@,
                        error@,
                    ),
                    ..settled
                },
            }
        }
    }

    /// The service after a preview came in.
    pub open spec fn preview_accepted(self, result: PreviewResult, active: u64) -> ServiceView {
        let settled = ServiceView {
            preview_inflight: set_without(self.preview_inflight, result.key@),
            ..self
        };
        if result.generation != active {
            settled
        } else {
            match result.result {
                Ok(protocol) => ServiceView {
                    previews: self.previews.rendered(
                        (result.key@.slot(), protocol, result.bytes),
                    ),
                    ..settled
                },
                Err(error) => ServiceView {
                    preview_failures: map_with(self.preview_failures, result.key@, error@),
                    ..settled
                },
            }
        }
    }

    /// The service after the first `count` results came in.
    pub open spec fn accepted(
        self,
        results: Seq<RenderResult>,
        active: u64,
        count: nat,
    ) -> ServiceView
        decreases count,
    {
        if count == 0 {
            self
        } else {
            let front = self.accepted(results, active, (count - 1) as nat);
            match results[count - 1] {
                RenderResult::Thumbnail(result) => front.thumbnail_accepted(result, active),
                RenderResult::Preview(result) => front.preview_accepted(result, active),
            }
        }
    }
}

/// The generation of a result.
pub open spec fn generation_of(result: RenderResult) -> u64 {
    match result {
        RenderResult::Thumbnail(result) => result.generation,
        RenderResult::Preview(result) => result.generation,
    }
}

/// Whether one of the first `count` results belongs to a generation.
pub open spec fn any_current(results: Seq<RenderResult>, active: u64, count: int) -> bool {
    exists|i: int| 0 <= i < count && generation_of(#[trigger] results[i]) == active
}

impl ThumbnailService {
    /// A service that knows no renderer yet.
    pub fn new(cache_mb: usize) -> (service: ThumbnailService)
        ensures
            service@ == (ServiceView {
                thumbnails: BudgetView {
                    cache: CacheView { slots: Seq::empty(), capacity: THUMBNAIL_SLOTS as nat },
                    current_bytes: 0,
                    budget_bytes: cache_budget(cache_mb),
                },
                previews: BudgetView {
                    cache: CacheView { slots: Seq::empty(), capacity: PREVIEW_SLOTS as nat },
                    current_bytes: 0,
                    budget_bytes: cache_budget(cache_mb),
                },
                thumbnail_failures: Seq::empty(),
                preview_failures: Seq::empty(),
                thumbnail_inflight: Seq::empty(),
                preview_inflight: Seq::empty(),
                configured: false,
                backend_id: "unconfigured"@,
            }),
    {
        let cache_bytes: usize = max_usize(saturating_product(cache_mb, 1_048_576), 1);
        ThumbnailService {
            thumbnail_cache: ProtocolCache::new(THUMBNAIL_SLOTS, cache_bytes),
            preview_cache: ProtocolCache::new(PREVIEW_SLOTS, cache_bytes),
            thumbnail_failures: KeyMap::new(),
            preview_failures: KeyMap::new(),
            thumbnail_inflight: KeySet::new(),
            preview_inflight: KeySet::new(),
            configured: false,
            backend_id: "unconfigured".to_owned(),
        }
    }

    /// Sets the renderer; what another one rendered is forgotten.
    pub fn configure_renderer(&mut self, backend_id: String)
        ensures
            final(self)@ == (ServiceView {
                configured: true,
                backend_id: backend_id@,
                ..if old(self)@.backend_id != backend_id@ {
                    old(self)@.forgotten()
                } else {
                    old(self)@
                }
            }),
    {
        if !same_text(self.backend_id.as_str(), backend_id.as_str()) {
            self.thumbnail_cache.clear();
            self.preview_cache.clear();
            self.clear_for_new_generation();
        }
        self.configured = true;
        self.backend_id = backend_id;
    }

    /// The renderer.
    pub fn backend_id(&self) -> (id: &str)
        ensures
            id@ == self@.backend_id,
    {
        self.backend_id.as_str()
    }

    /// Whether anything is being rendered.
    pub fn has_inflight(&self) -> (yes: bool)
        ensures
            yes == (self@.thumbnail_inflight.len() > 0 || self@.preview_inflight.len() > 0),
    {
        !self.thumbnail_inflight.is_empty() || !self.preview_inflight.is_empty()
    }

    /// The bytes that previews may have together.
    pub fn preview_budget_bytes(&self) -> (bytes: usize)
        ensures
            bytes == self@.previews.budget_bytes,
    {
        self.preview_cache.budget_bytes()
    }

    /// The number of previews that there is room for.
    pub fn preview_cache_capacity(&self) -> (capacity: usize)
        ensures
            capacity == self@.previews.cache.capacity,
    {
        self.preview_cache.capacity()
    }

    /// Makes room for a number of previews, at least.
    pub fn ensure_preview_capacity(&mut self, min_capacity: usize)
        ensures
            final(self)@ == (ServiceView {
                previews: old(self)@.previews.grown(min_capacity as int),
                ..old(self)@
            }),
    {
        self.preview_cache.ensure_capacity_at_least(min_capacity);
    }

    /// The number of previews that are being rendered.
    pub fn preview_inflight_len(&self) -> (len: usize)
        ensures
            len == self@.preview_inflight.len(),
    {
        self.preview_inflight.len()
    }

    /// The thumbnail of an entry, or that it is being rendered, or why it cannot be.
    /// Where it has to be rendered and there is room for a job, returns the job.
    pub fn get_or_request_thumbnail(
        &mut self,
        entry: &MediaEntry,
        width_cells: u16,
        height_cells: u16,
        generation: u64,
        room: bool,
    ) -> (answer: (ThumbnailStatus, Option<ThumbJob>))
        ensures
            ({
                let key = thumb_key(
                    entry@,
                    some_cells(width_cells),
                    some_cells(height_cells),
                    old(self)@.backend_id,
                );
                let used = old(self)@.thumbnail_used(key);
                let status = old(self)@.thumbnail_status(key);
                &&& answers_thumbnail(answer.0, key, status)
                &&& final(self)@ == if status is Loading {
                    used.thumbnail_asked(key, room)
                } else {
                    used
                }
                &&& match answer.1 {
                    Some(job) => status is Loading && used.asks_thumbnail(key, room) && job.key@
                        == key && job.generation == generation && job.orientation
                        == entry@.exif_orientation,
                    None => !(status is Loading) || !used.asks_thumbnail(key, room),
                }
            }),
    {
        let key = ThumbKey::for_entry(
            entry,
            at_least_one(width_cells),
            at_least_one(height_cells),
            self.backend_id.as_str(),
        );
        match self.thumbnail_cache.get(&key.slot_key()) {
            Some(protocol) => {
                return (ThumbnailStatus::Ready { key, protocol }, None);
            },
            None => {},
        }
        match self.thumbnail_failures.get(&key) {
            Some(error) => {
                return (ThumbnailStatus::Failed(error.clone()), None);
            },
            None => {},
        }
        let job = self.request_thumbnail_key(entry, key, generation, room);
        (ThumbnailStatus::Loading, job)
    }

    /// Asks for the thumbnail of an entry; returns the job, where there is one.
    pub fn prefetch_thumbnail(
        &mut self,
        entry: &MediaEntry,
        width_cells: u16,
        height_cells: u16,
        generation: u64,
        room: bool,
    ) -> (job: Option<ThumbJob>)
        ensures
            ({
                let key = thumb_key(
                    entry@,
                    some_cells(width_cells),
                    some_cells(height_cells),
                    old(self)@.backend_id,
                );
                &&& final(self)@ == old(self)@.thumbnail_asked(key, room)
                &&& match job {
                    Some(job) => old(self)@.asks_thumbnail(key, room) && job.key@ == key
                        && job.generation == generation && job.orientation
                        == entry@.exif_orientation,
                    None => !old(self)@.asks_thumbnail(key, room),
                }
            }),
    {
        let key = ThumbKey::for_entry(
            entry,
            at_least_one(width_cells),
            at_least_one(height_cells),
            self.backend_id.as_str(),
        );
        self.request_thumbnail_key(entry, key, generation, room)
    }

    /// The preview of an entry, or that it is being rendered, or why it cannot be.
    /// Where it has to be rendered and there is room for a job, returns the job.
    pub fn get_or_request_preview(
        &mut self,
        entry: &MediaEntry,
        width_cells: u16,
        height_cells: u16,
        zoom: ZoomMode,
        generation: u64,
        room: bool,
    ) -> (answer: (PreviewStatus, Option<PreviewJob>))
        ensures
            ({
                let key = preview_key(
                    entry@,
                    some_cells(width_cells),
                    some_cells(height_cells),
                    zoom,
                    old(self)@.backend_id,
                );
                let used = old(self)@.preview_used(key);
                let status = old(self)@.preview_status(key);
                &&& answers_preview(answer.0, key, status)
                &&& final(self)@ == if status is Loading {
                    used.preview_asked(key, room)
                } else {
                    used
                }
                &&& match answer.1 {
                    Some(job) => status is Loading && used.asks_preview(key, room) && job.key@
                        == key && job.generation == generation && job.orientation
                        == entry@.exif_orientation,
                    None => !(status is Loading) || !used.asks_preview(key, room),
                }
            }),
    {
        let key = PreviewKey::for_entry(
            entry,
            at_least_one(width_cells),
            at_least_one(height_cells),
            zoom,
            self.backend_id.as_str(),
        );
        match self.preview_cache.get(&key.slot_key()) {
            Some(protocol) => {
                return (PreviewStatus::Ready { key, protocol }, None);
            },
            None => {},
        }
        match self.preview_failures.get(&key) {
            Some(error) => {
                return (PreviewStatus::Failed(error.clone()), None);
            },
            None => {},
        }
        let job = self.request_preview_key(entry, key, generation, room);
        (PreviewStatus::Loading, job)
    }

    /// Asks for the preview of an entry; returns the job, where there is one.
    pub fn prefetch_preview(
        &mut self,
        entry: &MediaEntry,
        width_cells: u16,
        height_cells: u16,
        zoom: ZoomMode,
        generation: u64,
        room: bool,
    ) -> (job: Option<PreviewJob>)
        ensures
            ({
                let key = preview_key(
                    entry@,
                    some_cells(width_cells),
                    some_cells(height_cells),
                    zoom,
                    old(self)@.backend_id,
                );
                &&& final(self)@ == old(self)@.preview_asked(key, room)
                &&& match job {
                    Some(job) => old(self)@.asks_preview(key, room) && job.key@ == key
                        && job.generation == generation && job.orientation
                        == entry@.exif_orientation,
                    None => !old(self)@.asks_preview(key, room),
                }
            }),
    {
        let key = PreviewKey::for_entry(
            entry,
            at_least_one(width_cells),
            at_least_one(height_cells),
            zoom,
            self.backend_id.as_str(),
        );
        self.request_preview_key(entry, key, generation, room)
    }

    /// Takes what the workers rendered; reports whether anything changed that is
    /// shown.
    pub fn poll_finished(&mut self, results: Vec<RenderResult>, generation: u64) -> (changed: bool)
        ensures
            final(self)@ == old(self)@.accepted(results@, generation, results@.len()),
            changed == any_current(results@, generation, results@.len() as int),
    {
        let ghost all = results@;
        let ghost start = self@;
        let mut rest = results;
        let ghost mut done: int = 0;
        let mut changed = false;
        while rest.len() > 0
            invariant
                0 <= done <= all.len(),
                rest@ == all.skip(done),
                self@ == start.accepted(all, generation, done as nat),
                changed == any_current(all, generation, done),
            decreases rest@.len(),
        {
            let result = rest.remove(0);
            assert(result == all[done]);
            assert(rest@ =~= all.skip(done + 1));
            let ghost before = changed;
            let accepted = match result {
                RenderResult::Thumbnail(result) => self.accept_thumbnail_result(
                    result,
                    generation,
                ),
                RenderResult::Preview(result) => self.accept_preview_result(result, generation),
            };
            changed = changed || accepted;
            proof {
                assert(accepted == (generation_of(all[done]) == generation));
                if before {
                    let i = choose|i: int|
                        0 <= i < done && generation_of(#[trigger] all[i]) == generation;
                    assert(generation_of(all[i]) == generation && i < done + 1);
                }
                done = done + 1;
            }
        }
        changed
    }

    /// Forgets what was asked for and what failed.
    pub fn clear_for_new_generation(&mut self)
        ensures
            final(self)@ == old(self)@.renewed(),
    {
        self.thumbnail_failures.clear();
        self.preview_failures.clear();
        self.thumbnail_inflight.clear();
        self.preview_inflight.clear();
    }

    /// Takes a rendered thumbnail; reports whether it belongs to the generation.
    pub fn accept_thumbnail_result(&mut self, result: ThumbResult, active_generation: u64) -> (
        accepted: bool)
        ensures
            final(self)@ == old(self)@.thumbnail_accepted(result, active_generation),
            accepted == (result.generation == active_generation),
    {
        self.thumbnail_inflight.remove(&result.key);
        if result.generation != active_generation {
            return false;
        }
        match result.result {
            Ok(protocol) => {
                self.thumbnail_cache.insert(result.key.slot_key(), protocol, result.bytes);
            },
            Err(error) => {
                self.thumbnail_failures.insert(result.key, error);
            },
        }
        true
    }

    /// Takes a rendered preview; reports whether it belongs to the generation.
    pub fn accept_preview_result(&mut self, result: PreviewResult, active_generation: u64) -> (
        accepted: bool)
        ensures
            final(self)@ == old(self)@.preview_accepted(result, active_generation),
            accepted == (result.generation == active_generation),
    {
        self.preview_inflight.remove(&result.key);
        if result.generation != active_generation {
            return false;
        }
        match result.result {
            Ok(protocol) => {
                self.preview_cache.insert(result.key.slot_key(), protocol, result.bytes);
            },
            Err(error) => {
                self.preview_failures.insert(result.key, error);
            },
        }
        true
    }

    fn request_thumbnail_key(
        &mut self,
        entry: &MediaEntry,
        key: ThumbKey,
        generation: u64,
        room: bool,
    ) -> (job: Option<ThumbJob>)
        ensures
            final(self)@ == old(self)@.thumbnail_asked(key@, room),
            match job {
                Some(job) => old(self)@.asks_thumbnail(key@, room) && job.key@ == key@
                    && job.generation == generation && job.orientation
                    == entry@.exif_orientation,
                None => !old(self)@.asks_thumbnail(key@, room),
            },
    {
        if self.thumbnail_cache.contains(&key.slot_key()) || self.thumbnail_failures.contains_key(
            &key,
        ) || self.thumbnail_inflight.contains(&key) || !self.configured || !room {
            return None;
        }
        self.thumbnail_inflight.insert(key.clone());
        Some(ThumbJob { key, generation, orientation: entry.exif_orientation })
    }

    fn request_preview_key(
        &mut self,
        entry: &MediaEntry,
        key: PreviewKey,
        generation: u64,
        room: bool,
    ) -> (job: Option<PreviewJob>)
        ensures
            final(self)@ == old(self)@.preview_asked(key@, room),
            match job {
                Some(job) => old(self)@.asks_preview(key@, room) && job.key@ == key@
                    && job.generation == generation && job.orientation
                    == entry@.exif_orientation,
                None => !old(self)@.asks_preview(key@, room),
            },
    {
        if self.preview_cache.contains(&key.slot_key()) || self.preview_failures.contains_key(&key)
            || self.preview_inflight.contains(&key) || !self.configured || !room {
            return None;
        }
        self.preview_inflight.insert(key.clone());
        Some(PreviewJob { key, generation, orientation: entry.exif_orientation })
    }
}

/// Whether an answer says what is known of the thumbnail with a key.
pub open spec fn answers_thumbnail(
    answer: ThumbnailStatus,
    wanted: ThumbKeyView,
    known: StatusView,
) -> bool {
    match answer {
        ThumbnailStatus::Ready { key, protocol } => key@ == wanted && known == StatusView::Ready(
            protocol,
        ),
        ThumbnailStatus::Loading => known is Loading,
        ThumbnailStatus::Failed(error) => known == StatusView::Failed(error@),
    }
}

/// Whether an answer says what is known of the preview with a key.
pub open spec fn answers_preview(
    answer: PreviewStatus,
    wanted: PreviewKeyView,
    known: StatusView,
) -> bool {
    match answer {
        PreviewStatus::Ready { key, protocol } => key@ == wanted && known == StatusView::Ready(
            protocol,
        ),
        PreviewStatus::Loading => known is Loading,
        PreviewStatus::Failed(error) => known == StatusView::Failed(error@),
    }
}

/// A result of an earlier generation is never kept.
pub proof fn law_stale_results_are_dropped(
    service: ServiceView,
    thumbnail: ThumbResult,
    preview: PreviewResult,
    active: u64,
)
    requires
        thumbnail.generation != active,
        preview.generation != active,
    ensures
        service.thumbnail_accepted(thumbnail, active).thumbnails == service.thumbnails,
        service.thumbnail_accepted(thumbnail, active).thumbnail_failures
            == service.thumbnail_failures,
        service.preview_accepted(preview, active).previews == service.previews,
        service.preview_accepted(preview, active).preview_failures == service.preview_failures,
{
}

/// A picture that was rendered is ready, with the protocol that came in, where its bytes
/// are within the budget; one that could not be rendered has failed for the reason that
/// came in. Neither is asked for again.
pub proof fn law_results_settle_what_was_asked(
    service: ServiceView,
    result: ThumbResult,
    active: u64,
    room: bool,
)
    requires
        result.generation == active,
        service.thumbnails.cache.sound(),
        service.thumbnails.current_bytes == slot_bytes(service.thumbnails.cache.slots),
        slot_bytes(service.thumbnails.cache.slots) + result.bytes <= usize::MAX,
        result.bytes <= service.thumbnails.budget_bytes,
    ensures
        ({
            let after = service.thumbnail_accepted(result, active);
            &&& !after.asks_thumbnail(result.key@, room)
            &&& result.result matches Ok(protocol) ==> after.thumbnail_status(result.key@)
                == StatusView::Ready(protocol)
            &&& result.result matches Err(error) ==> !has_slot(
                service.thumbnails.cache.slots,
                result.key@.slot(),
            ) ==> after.thumbnail_status(result.key@) == StatusView::Failed(error@)
            &&& after.previews == service.previews
            &&& after.preview_inflight == service.preview_inflight
            &&& after.preview_failures == service.preview_failures
        }),
{
    match result.result {
        Ok(protocol) => {
            lemma_rendered_is_held(
                service.thumbnails,
                (result.key@.slot(), protocol, result.bytes),
            );
        },
        Err(error) => {
            crate::assoc::law_map_lookup(
                service.thumbnail_failures,
                result.key@,
                error@,
                result.key@,
            );
        },
    }
}

/// As for thumbnails, a preview that was rendered is ready, and one that could not be has
/// failed for the reason that came in.
pub proof fn law_results_settle_previews(
    service: ServiceView,
    result: PreviewResult,
    active: u64,
    room: bool,
)
    requires
        result.generation == active,
        service.previews.cache.sound(),
        service.previews.current_bytes == slot_bytes(service.previews.cache.slots),
        slot_bytes(service.previews.cache.slots) + result.bytes <= usize::MAX,
        result.bytes <= service.previews.budget_bytes,
    ensures
        ({
            let after = service.preview_accepted(result, active);
            &&& !after.asks_preview(result.key@, room)
            &&& result.result matches Ok(protocol) ==> after.preview_status(result.key@)
                == StatusView::Ready(protocol)
            &&& result.result matches Err(error) ==> !has_slot(
                service.previews.cache.slots,
                result.key@.slot(),
            ) ==> after.preview_status(result.key@) == StatusView::Failed(error@)
            &&& after.thumbnails == service.thumbnails
            &&& after.thumbnail_inflight == service.thumbnail_inflight
            &&& after.thumbnail_failures == service.thumbnail_failures
        }),
{
    match result.result {
        Ok(protocol) => {
            lemma_rendered_is_held(
                service.previews,
                (result.key@.slot(), protocol, result.bytes),
            );
        },
        Err(error) => {
            crate::assoc::law_map_lookup(
                service.preview_failures,
                result.key@,
                error@,
                result.key@,
            );
        },
    }
}

/// A slot that is no larger than the budget is kept when it is stored.
proof fn lemma_rendered_is_held(view: BudgetView, slot: SlotView)
    requires
        view.cache.sound(),
        view.current_bytes == slot_bytes(view.cache.slots),
        slot_bytes(view.cache.slots) + slot.2 <= usize::MAX,
        slot.2 <= view.budget_bytes,
    ensures
        held_by(view.rendered(slot).cache.slots, slot.0) == Some((slot.1, slot.2)),
        has_slot(view.rendered(slot).cache.slots, slot.0),
{
    let slots = view.cache.slots;
    let stored = view.cache.stored(slot);
    let one = seq![slot];
    crate::slots::law_cache_stays_sound(view.cache, slot.0, slot);
    law_rendered_bytes_are_counted(view, slot);
    assert(slot_bytes(one) == slot.2) by {
        reveal_with_fuel(slot_bytes, 2);
        assert(one.drop_last() =~= Seq::empty());
    }
    if has_slot(slots, slot.0) {
        let index = crate::slots::slot_index(slots, slot.0);
        assert(crate::slots::slot_at(slots, slot.0, index));
        lemma_bytes_removed(slots, index);
        lemma_bytes_nonnegative(slots.remove(index));
        lemma_bytes_joined(one, slots.remove(index));
    } else if slots.len() == view.cache.capacity {
        lemma_bytes_nonnegative(slots.drop_last());
        lemma_bytes_joined(one, slots.drop_last());
    } else {
        lemma_bytes_nonnegative(slots);
        lemma_bytes_joined(one, slots);
    }
    let counted = BudgetView {
        cache: stored,
        current_bytes: slot_bytes(stored.slots) as usize,
        ..view
    };
    assert(counted.evicted() == view.rendered(slot));
    crate::image_cache::law_eviction_drops_what_it_must(counted);
    crate::image_cache::law_eviction_meets_budget(counted);
    let left = view.rendered(slot).cache.slots;
    if left.len() == 0 {
        assert(stored.slots.take(1) =~= one);
    }
    assert(left[0] == stored.slots[0]);
    assert(crate::slots::slot_at(left, slot.0, 0));
    let found = crate::slots::slot_index(left, slot.0);
    assert(crate::slots::slot_at(left, slot.0, found));
    if found > 0 {
        assert(left[0].0 != left[found].0);
    }
}

/// A picture is asked for once: not while it is being rendered, and not again before an
/// answer came in. A stale answer lets it be asked for again.
pub proof fn law_pictures_are_asked_for_once(
    service: ServiceView,
    key: ThumbKeyView,
    stale: ThumbResult,
    active: u64,
)
    requires
        service.asks_thumbnail(key, true),
        stale.key@ == key,
        stale.generation != active,
    ensures
        !service.thumbnail_asked(key, true).asks_thumbnail(key, true),
        service.thumbnail_asked(key, true).thumbnail_status(key) is Loading,
        service.thumbnail_asked(key, true).thumbnail_accepted(stale, active).asks_thumbnail(
            key,
            true,
        ),
        !service.asks_thumbnail(key, false),
        service.thumbnail_asked(key, false) == service,
{
    let asked = service.thumbnail_asked(key, true);
    let inflight = service.thumbnail_inflight;
    assert(asked.thumbnail_inflight[inflight.len() as int] == key);
    assert(!map_has(service.thumbnail_failures, key));
    crate::assoc::law_set_membership(asked.thumbnail_inflight, key, key);
}

/// A service that forgets everything has nothing ready or failed, and asks for whatever is
/// wanted again; one that is renewed keeps what is ready, and forgets the failures.
pub proof fn law_forgetting_starts_again(
    service: ServiceView,
    thumbnail: ThumbKeyView,
    preview: PreviewKeyView,
)
    requires
        service.configured,
    ensures
        service.forgotten().thumbnail_status(thumbnail) is Loading,
        service.forgotten().preview_status(preview) is Loading,
        service.forgotten().asks_thumbnail(thumbnail, true),
        service.forgotten().asks_preview(preview, true),
        service.forgotten().thumbnails.current_bytes == 0,
        service.forgotten().previews.current_bytes == 0,
        service.forgotten().thumbnails.budget_bytes == service.thumbnails.budget_bytes,
        service.forgotten().previews.budget_bytes == service.previews.budget_bytes,
        service.renewed().thumbnails == service.thumbnails,
        service.renewed().previews == service.previews,
        !(service.renewed().thumbnail_status(thumbnail) is Failed),
        !(service.renewed().preview_status(preview) is Failed),
        !has_slot(service.thumbnails.cache.slots, thumbnail.slot())
            ==> service.renewed().asks_thumbnail(thumbnail, true),
        !has_slot(service.previews.cache.slots, preview.slot())
            ==> service.renewed().asks_preview(preview, true),
{
    assert(!has_slot(Seq::<SlotView>::empty(), thumbnail.slot()));
    assert(!has_slot(Seq::<SlotView>::empty(), preview.slot()));
}

/// A picture is rendered anew when its file, the file's length or time, or the cells
/// that it is shown in change, and for no other reason; so for the zoom of a preview.
pub proof fn law_pictures_follow_their_files(
    one: EntryView,
    other: EntryView,
    cells: (u16, u16),
    others: (u16, u16),
    zoom: ZoomMode,
    another: ZoomMode,
    backend: Seq<char>,
)
    requires
        one.modified matches Some(time) ==> time >= 0,
        other.modified matches Some(time) ==> time >= 0,
    ensures
        thumb_key(one, cells.0, cells.1, backend) == thumb_key(
            other,
            others.0,
            others.1,
            backend,
        ) <==> one.path == other.path && one.file_len == other.file_len && one.modified
            == other.modified && cells == others,
        preview_key(one, cells.0, cells.1, zoom, backend) == preview_key(
            other,
            others.0,
            others.1,
            another,
            backend,
        ) <==> one.path == other.path && one.file_len == other.file_len && one.modified
            == other.modified && cells == others && zoom == another,
{
}

/// A budget of some mebibytes is as many times 1024 times 1024 bytes, where that fits, and
/// never nothing.
pub proof fn law_budgets_are_mebibytes(megabytes: usize)
    ensures
        1 <= megabytes && megabytes * 1_048_576 <= usize::MAX ==> cache_budget(megabytes)
            == megabytes * 1024 * 1024,
        megabytes == 0 ==> cache_budget(megabytes) == 1,
        megabytes * 1_048_576 > usize::MAX ==> cache_budget(megabytes) == usize::MAX,
{
}

} // verus!
