//! What the window asks decoding threads for, and what it draws of their work.

use vstd::prelude::*;

use crate::assoc::{map_has, map_with, set_without, KeySet};
use crate::numbers::{least, max_usize, min_usize, most, saturating_product};
use crate::path::PathNames;
use crate::slots::{
    has_slot, key_of, law_cache_stays_sound, law_trimmed_cache_is_within_budget,
    law_trimming_drops_what_it_must, made_room, slot_at, slot_bytes, slot_index, CacheView, SlotCache, SlotKey, SlotView,
};
use crate::state::{EntryView, ViewMode, ZoomMode};

use super::textures::{TexKey, TexKeyView, Variant};
use super::window::{
    DecodeRequest, DecodeResult, GuiApp, GuiView, GRID_PREFETCH_ROWS, PREFETCH_RADIUS,
    PREVIEW_BYTES, THUMB_BYTES,
};

verus! {

/// The contents of a [`DecodeResult`].
pub struct DecodedView {
    pub key: TexKeyView,
    pub generation: u64,
    pub texture: Result<(u64, usize), Seq<char>>,
}

impl View for DecodeResult {
    type V = DecodedView;

    open spec fn view(&self) -> DecodedView {
        DecodedView {
            key: self.key@,
            generation: self.generation,
            texture: match self.texture {
                Ok(texture) => Ok(texture),
                Err(error) => Err(error@),
            },
        }
    }
}

/// The contents of a list of texture keys.
pub open spec fn keys_of(keys: Seq<TexKey>) -> Seq<TexKeyView> {
    Seq::new(keys.len(), |i: int| keys[i]@)
}

/// The keys of a list of requests.
pub open spec fn requested_keys(requests: Seq<DecodeRequest>) -> Seq<TexKeyView> {
    Seq::new(requests.len(), |i: int| requests[i].key@)
}

/// The texture of an entry in a size.
pub open spec fn entry_key(entry: EntryView, variant: Variant) -> TexKeyView {
    TexKeyView { path: entry.path, variant, media_kind: entry.media_kind }
}

/// The bytes of pixels that the kept textures of a size may have together.
pub open spec fn byte_budget(variant: Variant) -> int {
    if variant == Variant::Thumb {
        THUMB_BYTES as int
    } else {
        PREVIEW_BYTES as int
    }
}

/// What the slot held whose place one takes.
pub open spec fn freed_for(cache: CacheView, slot: SlotView) -> Seq<u64> {
    match made_room(cache.slots, cache.capacity, slot.0) {
        Some(gone) => seq![gone.1],
        None => Seq::empty(),
    }
}

/// The indices at a distance on both sides of one, in a list that wraps around.
pub open spec fn neighbours(current: int, distance: int, len: int) -> Seq<int> {
    seq![(current + distance) % len, (current + len - distance % len) % len]
}

/// The index that is current and those up to a distance on both sides of it.
pub open spec fn around(current: int, radius: nat, len: int) -> Seq<int>
    decreases radius,
{
    if radius == 0 {
        seq![current]
    } else {
        around(current, (radius - 1) as nat, len) + neighbours(current, radius as int, len)
    }
}

/// The textures of the entries at some indices; an index without an entry has
/// none.
pub open spec fn keys_at(entries: Seq<EntryView>, indices: Seq<int>, variant: Variant) -> Seq<
    TexKeyView,
>
    decreases indices.len(),
{
    if indices.len() == 0 {
        Seq::empty()
    } else {
        let front = keys_at(entries, indices.drop_last(), variant);
        let index = indices.last();
        if 0 <= index < entries.len() {
            front.push(entry_key(entries[index], variant))
        } else {
            front
        }
    }
}

/// As [`keys_at`], without those of newly arrived files, but with that of the
/// current entry.
pub open spec fn keys_ahead(
    entries: Seq<EntryView>,
    indices: Seq<int>,
    variant: Variant,
    current: int,
    arrived: Seq<PathNames>,
) -> Seq<TexKeyView>
    decreases indices.len(),
{
    if indices.len() == 0 {
        Seq::empty()
    } else {
        let front = keys_ahead(entries, indices.drop_last(), variant, current, arrived);
        let index = indices.last();
        if 0 <= index < entries.len() && (index == current || !arrived.contains(
            entries[index].path,
        )) {
            front.push(entry_key(entries[index], variant))
        } else {
            front
        }
    }
}

/// The smallest number of rows of `cols` cells that hold `count` cells.
pub open spec fn rows_for(count: int, cols: int) -> int {
    (count + cols - 1) / cols
}

impl GuiView {
    /// The size in which the preview is decoded.
    pub open spec fn preview_variant(self) -> Variant {
        match self.state.zoom_mode {
            ZoomMode::Fit => Variant::Fit,
            ZoomMode::OriginalPixels => Variant::Original,
        }
    }

    /// How far around the current entry the preview decodes ahead: not at all in
    /// the original size, nor while a video is paused.
    pub open spec fn ahead_radius(self) -> nat {
        if self.state.zoom_mode == ZoomMode::Fit && !self.refresh_waits() {
            PREFETCH_RADIUS as nat
        } else {
            0
        }
    }

    /// The indices of the entries that the preview wants.
    pub open spec fn preview_indices(self) -> Seq<int> {
        around(
            self.state.current_index as int,
            self.ahead_radius(),
            self.state.entries.len() as int,
        )
    }

    /// The indices of the entries of the grid, in the order of their cells.
    pub open spec fn cell_indices(self) -> Seq<int> {
        if self.state.mode == ViewMode::DeleteQueueGrid {
            let queued = self.state.queued_indices();
            Seq::new(queued.len(), |i: int| queued[i] as int)
        } else {
            Seq::new(self.state.entries.len(), |i: int| i)
        }
    }

    /// The indices of the entries of the cells on or near the visible rows.
    pub open spec fn near_indices(self) -> Seq<int> {
        let cells = self.cell_indices();
        let cols = most(self.grid_cols as int, 1);
        let start = most(self.last_visible_rows.0 - GRID_PREFETCH_ROWS, 0);
        let end = least(
            self.last_visible_rows.1 + GRID_PREFETCH_ROWS,
            rows_for(cells.len() as int, cols),
        );
        let from = least(start * cols, cells.len() as int);
        let to = least(end * cols, cells.len() as int);
        if from <= to {
            cells.subrange(from, to)
        } else {
            Seq::empty()
        }
    }

    /// The textures that the window wants.
    pub open spec fn wanted_keys(self) -> Seq<TexKeyView> {
        if self.state.entries.len() == 0 {
            Seq::empty()
        } else if self.state.mode == ViewMode::Preview {
            keys_ahead(
                self.state.entries,
                self.preview_indices(),
                self.preview_variant(),
                self.state.current_index as int,
                self.arrived,
            )
        } else {
            keys_at(self.state.entries, self.near_indices(), Variant::Thumb)
        }
    }

    /// The cache that a texture is kept in.
    pub open spec fn cache_for(self, variant: Variant) -> CacheView {
        if variant == Variant::Thumb {
            self.thumbs
        } else {
            self.previews
        }
    }

    /// Whether a texture need not be decoded: it is there, or being decoded, or
    /// decoding it failed.
    pub open spec fn settled(self, key: TexKeyView) -> bool {
        has_slot(self.cache_for(key.variant).slots, key.slot()) || self.inflight.contains(key)
            || map_has(self.failed, key)
    }

    /// The window whose current entry is no newcomer any more, where it is previewed.
    #[verifier::opaque]
    pub open spec fn current_noticed(self) -> GuiView {
        match self.state.current_path() {
            Some(path) => if self.state.mode == ViewMode::Preview {
                GuiView { arrived: set_without(self.arrived, path), ..self }
            } else {
                self
            },
            None => self,
        }
    }

    /// The window without previews among the textures being decoded.
    #[verifier::opaque]
    pub open spec fn previews_cancelled(self) -> GuiView {
        GuiView {
            inflight: self.inflight.filter(|key: TexKeyView| key.variant == Variant::Thumb),
            ..self
        }
    }

    /// The window after a list of textures was asked for.
    pub open spec fn after_requests(self, keys: Seq<TexKeyView>) -> GuiView
        decreases keys.len(),
    {
        if keys.len() == 0 {
            self
        } else {
            let front = self.after_requests(keys.drop_last());
            if front.settled(keys.last()) {
                front
            } else {
                GuiView { inflight: front.inflight.push(keys.last()), ..front }
            }
        }
    }

    /// Those of a list of textures that have to be decoded.
    pub open spec fn new_requests(self, keys: Seq<TexKeyView>) -> Seq<TexKeyView>
        decreases keys.len(),
    {
        if keys.len() == 0 {
            Seq::empty()
        } else {
            let front = self.new_requests(keys.drop_last());
            if self.after_requests(keys.drop_last()).settled(keys.last()) {
                front
            } else {
                front.push(keys.last())
            }
        }
    }

    /// The textures that make room for one: for its place, and for its bytes.
    pub open spec fn room_for(self, key: TexKeyView, texture: (u64, usize)) -> Seq<u64> {
        let cache = self.cache_for(key.variant);
        let slot: SlotView = (key.slot(), texture.0, texture.1);
        freed_for(cache, slot) + cache.stored(slot).trimmed_off(byte_budget(key.variant))
    }

    /// The window with a texture stored, and without those that made room for it.
    #[verifier::opaque]
    pub open spec fn texture_stored(self, key: TexKeyView, texture: (u64, usize)) -> GuiView {
        let slot: SlotView = (key.slot(), texture.0, texture.1);
        if key.variant == Variant::Thumb {
            GuiView { thumbs: self.thumbs.stored(slot).trimmed(THUMB_BYTES as int), ..self }
        } else {
            GuiView { previews: self.previews.stored(slot).trimmed(PREVIEW_BYTES as int), ..self }
        }
    }

    /// The window without a texture among those being decoded.
    #[verifier::opaque]
    pub open spec fn decode_ended(self, key: TexKeyView) -> GuiView {
        GuiView { inflight: set_without(self.inflight, key), ..self }
    }

    /// The window that knows why a texture could not be decoded.
    #[verifier::opaque]
    pub open spec fn failure_noted(self, key: TexKeyView, error: Seq<char>) -> GuiView {
        GuiView { failed: map_with(self.failed, key, error), ..self }
    }

    /// The window after a file was decoded. What belongs to an earlier scan is
    /// refused.
    pub open spec fn after_decode(self, decoded: DecodedView) -> GuiView {
        if decoded.generation != self.scan_generation {
            self
        } else {
            let arrived = self.decode_ended(decoded.key);
            match decoded.texture {
                Ok(texture) => arrived.texture_stored(decoded.key, texture),
                Err(error) => arrived.failure_noted(decoded.key, error),
            }
        }
    }

    /// The textures that are not needed any more after a file was decoded.
    pub open spec fn freed_by(self, decoded: DecodedView) -> Seq<u64> {
        match decoded.texture {
            Ok(texture) => if decoded.generation != self.scan_generation {
                seq![texture.0]
            } else {
                self.room_for(decoded.key, texture)
            },
            Err(_) => Seq::empty(),
        }
    }
}

impl GuiApp {
    /// The size in which the preview is decoded.
    pub fn preview_variant(&self) -> (variant: Variant)
        ensures
            variant == self@.preview_variant(),
    {
        match self.state.zoom_mode {
            ZoomMode::Fit => Variant::Fit,
            ZoomMode::OriginalPixels => Variant::Original,
        }
    }

    /// Whether a texture need not be decoded.
    fn is_settled(&self, key: &TexKey) -> (settled: bool)
        ensures
            settled == self@.settled(key@),
    {
        let slot = key.slot_key();
        let cached = match key.variant {
            Variant::Thumb => self.thumbs.contains(&slot),
            _ => self.previews.contains(&slot),
        };
        cached || self.inflight.contains(key) || self.failed.contains_key(key)
    }

    /// Notes that a texture is to be decoded, unless that is settled.
    fn request(&mut self, key: TexKey) -> (request: Option<DecodeRequest>)
        ensures
            match request {
                Some(request) => !old(self)@.settled(key@) && request.key@ == key@
                    && request.generation == old(self)@.scan_generation && final(self)@ == (
                GuiView { inflight: old(self)@.inflight.push(key@), ..old(self)@ }),
                None => old(self)@.settled(key@) && final(self)@ == old(self)@,
            },
    {
        if self.is_settled(&key) {
            return None;
        }
        self.inflight.insert(key.clone());
        Some(DecodeRequest { key, generation: self.scan_generation })
    }

    /// The indices of the entries of the grid, in the order of their cells.
    pub fn grid_indices(&self) -> (indices: Vec<usize>)
        ensures
            indices@.len() == self@.cell_indices().len(),
            forall|i: int|
                0 <= i < indices@.len() ==> #[trigger] indices@[i] == self@.cell_indices()[i],
    {
        if self.state.mode == ViewMode::DeleteQueueGrid {
            return self.state.queued_indices();
        }
        let mut indices: Vec<usize> = Vec::new();
        let count = self.state.entries.len();
        let mut index: usize = 0;
        while index < count
            invariant
                count == self.state.entries@.len(),
                index <= count,
                indices@.len() == index,
                forall|i: int| 0 <= i < index ==> #[trigger] indices@[i] == i,
            decreases count - index,
        {
            indices.push(index);
            index += 1;
        }
        indices
    }

    /// The texture of an entry in a size.
    fn key_at(&self, index: usize, variant: Variant) -> (key: TexKey)
        requires
            index < self@.state.entries.len(),
        ensures
            key@ == entry_key(self@.state.entries[index as int], variant),
    {
        let entry = &self.state.entries[index];
        TexKey { path: entry.path.clone(), variant, media_kind: entry.media_kind }
    }

    /// Adds the texture of an entry to a list, where there is such an entry.
    fn push_key(&self, keys: &mut Vec<TexKey>, index: usize, variant: Variant)
        ensures
            keys_of(final(keys)@) == if index < self@.state.entries.len() {
                keys_of(old(keys)@).push(entry_key(self@.state.entries[index as int], variant))
            } else {
                keys_of(old(keys)@)
            },
    {
        if index < self.state.entries.len() {
            let key = self.key_at(index, variant);
            keys.push(key);
            assert(keys_of(keys@) =~= keys_of(old(keys)@).push(key@));
        }
    }

    /// Adds the texture of an entry to a list, where there is such an entry and it is
    /// decoded ahead.
    fn push_ahead(&self, keys: &mut Vec<TexKey>, index: usize, variant: Variant)
        ensures
            keys_of(final(keys)@) == if index < self@.state.entries.len() && (index
                == self@.state.current_index || !self@.arrived.contains(
                self@.state.entries[index as int].path,
            )) {
                keys_of(old(keys)@).push(entry_key(self@.state.entries[index as int], variant))
            } else {
                keys_of(old(keys)@)
            },
    {
        if index < self.state.entries.len() && (index == self.state.current_index
            || !self.arrived.contains(&self.state.entries[index].path)) {
            self.push_key(keys, index, variant);
        }
    }

    /// How far around the current entry the preview decodes ahead.
    fn ahead_radius(&self) -> (radius: usize)
        ensures
            radius == self@.ahead_radius(),
            radius <= PREFETCH_RADIUS,
    {
        if self.state.zoom_mode == ZoomMode::Fit && !self.refresh_waits() {
            PREFETCH_RADIUS
        } else {
            0
        }
    }

    /// The textures that the preview wants.
    fn wanted_previews(&self) -> (keys: Vec<TexKey>)
        requires
            self@.state.entries.len() > 0,
        ensures
            keys_of(keys@) == keys_ahead(
                self@.state.entries,
                self@.preview_indices(),
                self@.preview_variant(),
                self@.state.current_index as int,
                self@.arrived,
            ),
    {
        let variant = self.preview_variant();
        let current: usize = self.state.current_index;
        let len: usize = self.state.entries.len();
        let radius: usize = self.ahead_radius();
        let ghost entries = self@.state.entries;
        let ghost arrived = self@.arrived;
        let mut keys: Vec<TexKey> = Vec::new();
        assert(keys_of(keys@) =~= Seq::empty());
        self.push_ahead(&mut keys, current, variant);
        proof {
            let first = around(current as int, 0, len as int);
            assert(first.drop_last() =~= Seq::empty());
            assert(keys_ahead(entries, first.drop_last(), variant, current as int, arrived)
                =~= Seq::empty());
            assert(keys_of(keys@) == keys_ahead(entries, first, variant, current as int, arrived));
        }
        let mut distance: usize = 1;
        while distance <= radius
            invariant
                entries == self@.state.entries,
                arrived == self@.arrived,
                current == self@.state.current_index,
                len == entries.len(),
                len == self.state.entries@.len(),
                len > 0,
                1 <= distance <= radius + 1,
                radius <= PREFETCH_RADIUS,
                keys_of(keys@) == keys_ahead(
                    entries,
                    around(current as int, (distance - 1) as nat, len as int),
                    variant,
                    current as int,
                    arrived,
                ),
            decreases radius + 1 - distance,
        {
            let on: usize = wrapped_sum(current, distance, len);
            let back: usize = wrapped_sum(current, len - distance % len, len);
            let ghost before = around(current as int, (distance - 1) as nat, len as int);
            let ghost after = around(current as int, distance as nat, len as int);
            let ghost one = before.push(on as int);
            assert(after =~= one.push(back as int));
            assert(after.drop_last() =~= one);
            assert(one.drop_last() =~= before);
            self.push_ahead(&mut keys, on, variant);
            assert(keys_of(keys@) == keys_ahead(entries, one, variant, current as int, arrived));
            self.push_ahead(&mut keys, back, variant);
            assert(keys_of(keys@) == keys_ahead(
                entries,
                after,
                variant,
                current as int,
                arrived,
            ));
            distance += 1;
        }
        keys
    }

    /// The textures that the grid wants.
    fn wanted_thumbs(&self) -> (keys: Vec<TexKey>)
        ensures
            keys_of(keys@) == keys_at(self@.state.entries, self@.near_indices(), Variant::Thumb),
    {
        let indices = self.grid_indices();
        let ghost cells = self@.cell_indices();
        let cols: usize = max_usize(self.grid_cols, 1);
        let count: usize = indices.len();
        let total_rows: usize = row_count(count, cols);
        let start: usize = self.last_visible_rows.0.saturating_sub(GRID_PREFETCH_ROWS);
        let end: usize = min_usize(
            self.last_visible_rows.1.saturating_add(GRID_PREFETCH_ROWS),
            total_rows,
        );
        let from: usize = min_usize(saturating_product(start, cols), count);
        let to: usize = min_usize(saturating_product(end, cols), count);
        let ghost near = self@.near_indices();
        assert(near == if from <= to {
            cells.subrange(from as int, to as int)
        } else {
            Seq::empty()
        });
        let mut keys: Vec<TexKey> = Vec::new();
        assert(keys_of(keys@) =~= keys_at(self@.state.entries, near.take(0), Variant::Thumb));
        let mut slot: usize = from;
        while slot < to
            invariant
                count == indices@.len(),
                to <= count,
                from <= slot,
                from <= to ==> slot <= to,
                from > to ==> slot == from,
                cells == self@.cell_indices(),
                indices@.len() == cells.len(),
                forall|i: int| 0 <= i < indices@.len() ==> #[trigger] indices@[i] == cells[i],
                near == if from <= to {
                    cells.subrange(from as int, to as int)
                } else {
                    Seq::empty()
                },
                keys_of(keys@) == keys_at(
                    self@.state.entries,
                    near.take(slot - from),
                    Variant::Thumb,
                ),
            decreases to - slot,
        {
            proof {
                let next = near.take(slot - from + 1);
                assert(next.drop_last() =~= near.take(slot - from));
                assert(next.last() == indices@[slot as int]);
            }
            self.push_key(&mut keys, indices[slot], Variant::Thumb);
            slot += 1;
        }
        assert(near.take(slot - from) =~= near);
        keys
    }

    /// Notes that the current entry is previewed.
    fn notice_current(&mut self)
        ensures
            final(self)@ == old(self)@.current_noticed(),
    {
        proof {
            reveal(GuiView::current_noticed);
        }
        if self.state.mode == ViewMode::Preview {
            match self.state.current_path() {
                Some(path) => {
                    self.arrived.remove(&path);
                },
                None => {},
            }
        }
    }

    /// Takes the previews out of the textures being decoded, as their decoding is
    /// cancelled; what is decoded is kept.
    pub fn cancel_previews(&mut self)
        ensures
            final(self)@ == old(self)@.previews_cancelled(),
    {
        proof {
            reveal(GuiView::previews_cancelled);
        }
        let ghost all = self.inflight@;
        let mut kept: Vec<TexKey> = Vec::new();
        let mut index: usize = 0;
        proof {
            reveal(Seq::filter);
            assert(keys_of(kept@) =~= all.take(0).filter(
                |key: TexKeyView| key.variant == Variant::Thumb,
            ));
        }
        while index < self.inflight.keys.len()
            invariant
                all == self.inflight@,
                all.len() == self.inflight.keys@.len(),
                index <= all.len(),
                keys_of(kept@) == all.take(index as int).filter(
                    |key: TexKeyView| key.variant == Variant::Thumb,
                ),
            decreases all.len() - index,
        {
            let key = &self.inflight.keys[index];
            let ghost before = kept@;
            proof {
                reveal(Seq::filter);
                assert(all.take(index + 1).drop_last() =~= all.take(index as int));
                assert(all.take(index + 1).last() == key@);
            }
            if key.variant == Variant::Thumb {
                kept.push(key.clone());
                assert(keys_of(kept@) =~= keys_of(before).push(key@));
            }
            index += 1;
        }
        assert(all.take(index as int) =~= all);
        self.inflight = KeySet { keys: kept };
        assert(self.inflight@ =~= keys_of(kept@));
    }

    /// Asks for the textures that the window wants; returns those that have to be
    /// decoded. A newcomer that is previewed is one no more.
    pub fn ensure_requested(&mut self) -> (requests: Vec<DecodeRequest>)
        ensures
            final(self)@ == old(self)@.after_requests(
                old(self)@.wanted_keys(),
            ).current_noticed(),
            requested_keys(requests@) == old(self)@.new_requests(old(self)@.wanted_keys()),
            forall|i: int|
                0 <= i < requests@.len() ==> (#[trigger] requests@[i]).generation == old(
                    self,
                )@.scan_generation,
    {
        let mut requests: Vec<DecodeRequest> = Vec::new();
        assert(requested_keys(requests@) =~= Seq::empty());
        if self.state.entries.len() == 0 {
            proof {
                reveal(GuiView::current_noticed);
            }
            return requests;
        }
        let keys = match self.state.mode {
            ViewMode::Preview => self.wanted_previews(),
            ViewMode::Grid | ViewMode::DeleteQueueGrid => self.wanted_thumbs(),
        };
        let ghost start = self@;
        let ghost wanted = keys_of(keys@);
        let mut index: usize = 0;
        assert(wanted.take(0) =~= Seq::empty());
        while index < keys.len()
            invariant
                wanted == keys_of(keys@),
                index <= wanted.len(),
                self@ == start.after_requests(wanted.take(index as int)),
                self@.scan_generation == start.scan_generation,
                requested_keys(requests@) == start.new_requests(wanted.take(index as int)),
                forall|i: int|
                    0 <= i < requests@.len() ==> (#[trigger] requests@[i]).generation
                        == start.scan_generation,
            decreases wanted.len() - index,
        {
            let ghost before = requests@;
            proof {
                assert(wanted.take(index + 1).drop_last() =~= wanted.take(index as int));
                assert(wanted.take(index + 1).last() == keys@[index as int]@);
            }
            match self.request(keys[index].clone()) {
                Some(request) => {
                    requests.push(request);
                    assert(requested_keys(requests@) =~= requested_keys(before).push(
                        request.key@,
                    ));
                },
                None => {},
            }
            index += 1;
        }
        assert(wanted.take(index as int) =~= wanted);
        self.notice_current();
        requests
    }

    /// Takes a decoded file; returns the textures that are not needed any more.
    pub fn accept_decoded(&mut self, result: DecodeResult) -> (freed: Vec<u64>)
        ensures
            final(self)@ == old(self)@.after_decode(result@),
            freed@ == old(self)@.freed_by(result@),
    {
        if result.generation != self.scan_generation {
            let mut refused: Vec<u64> = Vec::new();
            if let Ok((texture, _)) = result.texture {
                refused.push(texture);
            }
            assert(refused@ =~= old(self)@.freed_by(result@));
            return refused;
        }
        self.end_decode(&result.key);
        proof {
            reveal(GuiView::decode_ended);
        }
        match result.texture {
            Ok(texture) => self.store_texture(&result.key, texture),
            Err(error) => {
                self.note_failure(result.key, error);
                Vec::new()
            },
        }
    }

    /// Takes a texture out of those being decoded.
    fn end_decode(&mut self, key: &TexKey)
        ensures
            final(self)@ == old(self)@.decode_ended(key@),
    {
        proof {
            reveal(GuiView::decode_ended);
        }
        self.inflight.remove(key);
    }

    /// Notes why a texture could not be decoded.
    fn note_failure(&mut self, key: TexKey, error: String)
        ensures
            final(self)@ == old(self)@.failure_noted(key@, error@),
    {
        proof {
            reveal(GuiView::failure_noted);
        }
        self.failed.insert(key, error);
    }

    /// Stores a texture; returns those that made room for it.
    fn store_texture(&mut self, key: &TexKey, texture: (u64, usize)) -> (freed: Vec<u64>)
        ensures
            final(self)@ == old(self)@.texture_stored(key@, texture),
            freed@ == old(self)@.room_for(key@, texture),
    {
        proof {
            reveal(GuiView::texture_stored);
        }
        let slot = key.slot_key();
        match key.variant {
            Variant::Thumb => store_within(&mut self.thumbs, slot, texture, THUMB_BYTES),
            _ => store_within(&mut self.previews, slot, texture, PREVIEW_BYTES),
        }
    }

    /// Gives a texture up that is not being decoded after all, so that it is asked for
    /// again.
    pub fn withdraw(&mut self, request: &DecodeRequest)
        ensures
            final(self)@ == if request.generation == old(self)@.scan_generation {
                old(self)@.decode_ended(request.key@)
            } else {
                old(self)@
            },
    {
        if request.generation == self.scan_generation {
            self.end_decode(&request.key);
        }
    }
}

/// Stores a slot and keeps a cache within a budget of bytes; returns what the slots held
/// that made room for it.
fn store_within(
    cache: &mut SlotCache,
    key: SlotKey,
    texture: (u64, usize),
    budget: u128,
) -> (freed: Vec<u64>)
    ensures
        final(cache)@ == old(cache)@.stored((key_of(key), texture.0, texture.1)).trimmed(
            budget as int,
        ),
        freed@ == freed_for(old(cache)@, (key_of(key), texture.0, texture.1)) + old(
            cache,
        )@.stored((key_of(key), texture.0, texture.1)).trimmed_off(budget as int),
{
    let ghost slot: SlotView = (key_of(key), texture.0, texture.1);
    let mut freed: Vec<u64> = Vec::new();
    if let Some((_, (number, _))) = cache.push(key, texture) {
        freed.push(number);
    }
    assert(freed@ =~= freed_for(old(cache)@, slot));
    let mut trimmed = cache.trim(budget);
    freed.append(&mut trimmed);
    freed
}

/// The kept textures stay within their budget of bytes whatever was decoded, or there is
/// one alone; and a decoded texture that is taken is kept.
pub proof fn law_textures_stay_within_their_bytes(view: GuiView, decoded: DecodedView)
    requires
        view.previews.sound(),
        view.thumbs.sound(),
        slot_bytes(view.previews.slots) <= PREVIEW_BYTES || view.previews.slots.len() <= 1,
        slot_bytes(view.thumbs.slots) <= THUMB_BYTES || view.thumbs.slots.len() <= 1,
    ensures
        ({
            let after = view.after_decode(decoded);
            &&& after.previews.sound()
            &&& after.thumbs.sound()
            &&& after.previews.capacity == view.previews.capacity
            &&& after.thumbs.capacity == view.thumbs.capacity
            &&& slot_bytes(after.previews.slots) <= PREVIEW_BYTES || after.previews.slots.len()
                <= 1
            &&& slot_bytes(after.thumbs.slots) <= THUMB_BYTES || after.thumbs.slots.len() <= 1
            &&& decoded.texture is Ok && decoded.generation == view.scan_generation ==> has_slot(
                after.cache_for(decoded.key.variant).slots,
                decoded.key.slot(),
            )
        }),
{
    reveal(GuiView::decode_ended);
    reveal(GuiView::failure_noted);
    reveal(GuiView::texture_stored);
    if let Ok(texture) = decoded.texture {
        let slot: SlotView = (decoded.key.slot(), texture.0, texture.1);
        let cache = view.cache_for(decoded.key.variant);
        let budget = byte_budget(decoded.key.variant);
        law_cache_stays_sound(cache, decoded.key.slot(), slot);
        law_trimmed_cache_is_within_budget(cache.stored(slot), budget);
        let left = cache.stored(slot).trimmed(budget);
        assert(left.slots[0] == slot);
        assert(slot_at(left.slots, decoded.key.slot(), 0));
    }
}

/// The smallest number of rows of `cols` cells that hold `count` cells.
pub fn row_count(count: usize, cols: usize) -> (rows: usize)
    requires
        cols > 0,
    ensures
        rows == rows_for(count as int, cols as int),
{
    let whole: usize = count / cols;
    let rest: usize = count % cols;
    proof {
        vstd::arithmetic::div_mod::lemma_fundamental_div_mod(count as int, cols as int);
        let sum = count + cols - 1;
        assert(count == cols * whole + rest);
        if rest == 0 {
            assert(sum == cols * whole + (cols - 1)) by (nonlinear_arith)
                requires
                    sum == count + cols - 1,
                    count == cols * whole + rest,
                    rest == 0,
            ;
            vstd::arithmetic::div_mod::lemma_fundamental_div_mod_converse(
                sum,
                cols as int,
                whole as int,
                cols - 1,
            );
        } else {
            assert(sum == cols * (whole + 1) + (rest - 1)) by (nonlinear_arith)
                requires
                    sum == count + cols - 1,
                    count == cols * whole + rest,
            ;
            vstd::arithmetic::div_mod::lemma_fundamental_div_mod_converse(
                sum,
                cols as int,
                whole + 1,
                rest - 1,
            );
            assert(whole + 1 <= usize::MAX) by (nonlinear_arith)
                requires
                    count == cols * whole + rest,
                    rest > 0,
                    cols > 0,
                    count <= usize::MAX,
            ;
        }
    }
    if rest == 0 {
        whole
    } else {
        whole + 1
    }
}

/// The sum of two indices in a list that wraps around.
fn wrapped_sum(a: usize, b: usize, len: usize) -> (sum: usize)
    requires
        len > 0,
    ensures
        sum == (a + b) % (len as int),
        sum < len,
{
    let left: usize = a % len;
    let right: usize = b % len;
    proof {
        vstd::arithmetic::div_mod::lemma_add_mod_noop(a as int, b as int, len as int);
    }
    if left < len - right {
        proof {
            vstd::arithmetic::div_mod::lemma_small_mod((left + right) as nat, len as nat);
        }
        left + right
    } else {
        proof {
            vstd::arithmetic::div_mod::lemma_mod_sub_multiples_vanish(
                left + right,
                len as int,
            );
            vstd::arithmetic::div_mod::lemma_small_mod(
                (left + right - len) as nat,
                len as nat,
            );
        }
        left - (len - right)
    }
}

/// A texture is asked for exactly where it is wanted and is neither kept nor being decoded
/// nor known to fail.
pub proof fn law_missing_textures_are_asked_for(
    view: GuiView,
    keys: Seq<TexKeyView>,
    key: TexKeyView,
)
    ensures
        view.new_requests(keys).contains(key) <==> {
            &&& keys.contains(key)
            &&& !has_slot(
                if key.variant == Variant::Thumb {
                    view.thumbs.slots
                } else {
                    view.previews.slots
                },
                key.slot(),
            )
            &&& !view.inflight.contains(key)
            &&& !map_has(view.failed, key)
        },
        view.after_requests(keys).inflight.contains(key) <==> view.inflight.contains(key)
            || view.new_requests(keys).contains(key),
        view.after_requests(keys).previews == view.previews,
        view.after_requests(keys).thumbs == view.thumbs,
        view.after_requests(keys).failed == view.failed,
    decreases keys.len(),
{
    if keys.len() > 0 {
        let front = keys.drop_last();
        let last = keys.last();
        law_missing_textures_are_asked_for(view, front, key);
        law_missing_textures_are_asked_for(view, front, last);
        let before = view.new_requests(front);
        let flying = view.after_requests(front).inflight;
        if keys.contains(key) {
            let k = keys.index_of(key);
            if k < front.len() {
                assert(front[k] == key);
            }
        }
        if front.contains(key) {
            let k = front.index_of(key);
            assert(keys[k] == key);
        }
        assert(keys[keys.len() - 1] == last);
        let after = before.push(last);
        if before.contains(key) {
            let k = before.index_of(key);
            assert(after[k] == key);
        }
        assert(after[before.len() as int] == last);
        let next = flying.push(last);
        if flying.contains(key) {
            let k = flying.index_of(key);
            assert(next[k] == key);
        }
        assert(next[flying.len() as int] == last);
    }
}

/// In the preview the picture of the current entry is wanted, in the size that fits the
/// window or in its own; in the size that fits, and while no video is paused, those of the
/// four entries before and behind it too, around the ends of the list, unless they are
/// newcomers.
pub proof fn law_preview_wants_its_neighbours(view: GuiView, distance: int, index: int)
    requires
        view.state.mode == ViewMode::Preview,
        view.state.current_index < view.state.entries.len(),
        0 <= index < view.state.entries.len(),
    ensures
        view.state.zoom_mode == ZoomMode::Fit ==> view.wanted_keys().contains(
            TexKeyView {
                path: view.state.entries[view.state.current_index as int].path,
                variant: Variant::Fit,
                media_kind: view.state.entries[view.state.current_index as int].media_kind,
            },
        ),
        view.state.zoom_mode == ZoomMode::OriginalPixels ==> view.wanted_keys() == seq![
            TexKeyView {
                path: view.state.entries[view.state.current_index as int].path,
                variant: Variant::Original,
                media_kind: view.state.entries[view.state.current_index as int].media_kind,
            },
        ],
        view.state.zoom_mode == ZoomMode::Fit && !view.refresh_waits() && 1 <= distance <= 4
            && !view.arrived.contains(view.state.entries[index].path) && (index == (
        view.state.current_index + distance) % (view.state.entries.len() as int) || (index
            + distance) % (view.state.entries.len() as int) == view.state.current_index)
            ==> view.wanted_keys().contains(
            TexKeyView {
                path: view.state.entries[index].path,
                variant: Variant::Fit,
                media_kind: view.state.entries[index].media_kind,
            },
        ),
{
    let len = view.state.entries.len() as int;
    let current = view.state.current_index as int;
    let indices = view.preview_indices();
    lemma_around_has(current, view.ahead_radius(), len, 0);
    lemma_keys_ahead_has(
        view.state.entries,
        indices,
        view.preview_variant(),
        current,
        view.arrived,
        current,
    );
    if view.state.zoom_mode == ZoomMode::OriginalPixels {
        assert(indices =~= seq![current]);
        let keys = view.wanted_keys();
        assert(indices.drop_last() =~= Seq::empty());
        assert(keys_ahead(
            view.state.entries,
            Seq::empty(),
            view.preview_variant(),
            current,
            view.arrived,
        ) =~= Seq::empty());
        assert(keys =~= seq![entry_key(view.state.entries[current], Variant::Original)]);
    }
    if view.state.zoom_mode == ZoomMode::Fit && !view.refresh_waits() && 1 <= distance <= 4
        && !view.arrived.contains(view.state.entries[index].path) && (index == (current + distance)
        % len || (index + distance) % len == current) {
        lemma_around_has(current, 4, len, distance as nat);
        if (index + distance) % len == current {
            lemma_back(current, distance, len, index);
        }
        assert(indices.contains(index));
        lemma_keys_ahead_has(
            view.state.entries,
            indices,
            Variant::Fit,
            current,
            view.arrived,
            index,
        );
    }
}

/// The index from which a distance leads to another one.
proof fn lemma_back(current: int, distance: int, len: int, index: int)
    requires
        0 <= index < len,
        0 <= current < len,
        0 <= distance,
        (index + distance) % len == current,
    ensures
        (current + len - distance % len) % len == index,
{
    let d = distance % len;
    vstd::arithmetic::div_mod::lemma_fundamental_div_mod(distance, len);
    vstd::arithmetic::div_mod::lemma_mod_bound(distance, len);
    vstd::arithmetic::div_mod::lemma_fundamental_div_mod(index + distance, len);
    let a = distance / len;
    let b = (index + distance) / len;
    // index + d + a * len == b * len + current
    assert(index + d - current == (b - a) * len) by (nonlinear_arith)
        requires
            distance == len * a + d,
            index + distance == len * b + current,
    ;
    let c = b - a;
    assert(c == 0 || c == 1) by (nonlinear_arith)
        requires
            index + d - current == c * len,
            0 <= index < len,
            0 <= d < len,
            0 <= current < len,
    ;
    if c == 0 {
        assert(0 * len == 0);
        vstd::arithmetic::div_mod::lemma_fundamental_div_mod_converse(
            current + len - d,
            len,
            1,
            index,
        );
    } else {
        assert(1 * len == len);
        vstd::arithmetic::div_mod::lemma_fundamental_div_mod_converse(
            current + len - d,
            len,
            0,
            index,
        );
    }
}

proof fn lemma_around_has(current: int, radius: nat, len: int, distance: nat)
    requires
        distance <= radius,
        len > 0,
        0 <= current < len,
    ensures
        distance == 0 ==> around(current, radius, len).contains(current),
        distance > 0 ==> around(current, radius, len).contains((current + distance) % len),
        distance > 0 ==> around(current, radius, len).contains(
            (current + len - (distance as int) % len) % len,
        ),
    decreases radius,
{
    let all = around(current, radius, len);
    if radius == 0 {
        assert(all[0] == current);
    } else {
        let front = around(current, (radius - 1) as nat, len);
        let more = neighbours(current, radius as int, len);
        if distance < radius {
            lemma_around_has(current, (radius - 1) as nat, len, distance);
            let wanted = if distance == 0 {
                current
            } else {
                (current + distance) % len
            };
            let k = front.index_of(wanted);
            assert(all[k] == wanted);
            let other = if distance == 0 {
                current
            } else {
                (current + len - (distance as int) % len) % len
            };
            let j = front.index_of(other);
            assert(all[j] == other);
        } else {
            assert(all[front.len() as int] == more[0]);
            assert(all[front.len() as int + 1] == more[1]);
        }
    }
}

proof fn lemma_keys_ahead_has(
    entries: Seq<EntryView>,
    indices: Seq<int>,
    variant: Variant,
    current: int,
    arrived: Seq<PathNames>,
    index: int,
)
    requires
        indices.contains(index),
        0 <= index < entries.len(),
        index == current || !arrived.contains(entries[index].path),
    ensures
        keys_ahead(entries, indices, variant, current, arrived).contains(
            entry_key(entries[index], variant),
        ),
    decreases indices.len(),
{
    let front = indices.drop_last();
    let before = keys_ahead(entries, front, variant, current, arrived);
    let all = keys_ahead(entries, indices, variant, current, arrived);
    let key = entry_key(entries[index], variant);
    if indices.last() == index {
        assert(all[before.len() as int] == key);
    } else {
        let k = indices.index_of(index);
        assert(front[k] == index);
        lemma_keys_ahead_has(entries, front, variant, current, arrived, index);
        let j = before.index_of(key);
        assert(all[j] == key);
    }
}

/// The rows of a grid are as many as its cells fill, the last one perhaps in part.
pub proof fn law_rows_hold_all_cells(count: int, cols: int)
    requires
        count >= 0,
        cols >= 1,
    ensures
        rows_for(count, cols) * cols >= count,
        (rows_for(count, cols) - 1) * cols < count || count == 0,
        count == 0 ==> rows_for(count, cols) == 0,
{
    let top = count + cols - 1;
    vstd::arithmetic::div_mod::lemma_fundamental_div_mod(top, cols);
    vstd::arithmetic::div_mod::lemma_mod_bound(top, cols);
    let q = top / cols;
    assert(q * cols >= count && (q - 1) * cols < count || count == 0) by (nonlinear_arith)
        requires
            top == cols * q + top % cols,
            0 <= top % cols < cols,
            top == count + cols - 1,
            count >= 0,
    ;
    if count == 0 {
        vstd::arithmetic::div_mod::lemma_fundamental_div_mod_converse(
            cols - 1,
            cols,
            0,
            cols - 1,
        );
    } else {
        assert(q * cols >= count) by (nonlinear_arith)
            requires
                top == cols * q + top % cols,
                0 <= top % cols < cols,
                top == count + cols - 1,
        ;
    }
}

/// In the grid the thumbnail of every cell of a visible row is wanted, and of the three
/// rows above and below.
pub proof fn law_visible_cells_are_wanted(view: GuiView, row: int, cell: int)
    requires
        view.state.mode == ViewMode::Grid,
        view.grid_cols >= 1,
        0 <= cell < view.state.entries.len(),
        row == cell / view.grid_cols as int,
        view.last_visible_rows.0 <= view.last_visible_rows.1,
        view.last_visible_rows.0 - 3 <= row < view.last_visible_rows.1 + 3,
    ensures
        view.wanted_keys().contains(
            TexKeyView {
                path: view.state.entries[cell].path,
                variant: Variant::Thumb,
                media_kind: view.state.entries[cell].media_kind,
            },
        ),
{
    let cols = view.grid_cols as int;
    let count = view.state.entries.len() as int;
    let cells = view.cell_indices();
    let rows = rows_for(count, cols);
    let start = most(view.last_visible_rows.0 - GRID_PREFETCH_ROWS, 0);
    let end = least(view.last_visible_rows.1 + GRID_PREFETCH_ROWS, rows);
    let from = least(start * cols, count);
    let to = least(end * cols, count);
    vstd::arithmetic::div_mod::lemma_fundamental_div_mod(cell, cols);
    vstd::arithmetic::div_mod::lemma_mod_bound(cell, cols);
    law_rows_hold_all_cells(count, cols);
    assert(row < rows) by (nonlinear_arith)
        requires
            cell == cols * row + cell % cols,
            0 <= cell % cols,
            cell < count,
            rows * cols >= count,
            cols >= 1,
    ;
    assert(start * cols <= cell) by (nonlinear_arith)
        requires
            start <= row || start == 0,
            cell == cols * row + cell % cols,
            0 <= cell % cols,
            cell >= 0,
            cols >= 1,
    ;
    assert(cell < end * cols) by (nonlinear_arith)
        requires
            row + 1 <= end,
            cell == cols * row + cell % cols,
            cell % cols < cols,
            cols >= 1,
    ;
    assert(from <= cell < to);
    assert(0 <= start * cols) by (nonlinear_arith)
        requires
            start >= 0,
            cols >= 1,
    ;
    let near = view.near_indices();
    assert(near[cell - from] == cell);
    lemma_keys_at_hold(view.state.entries, near, Variant::Thumb, cell - from);
}

proof fn lemma_keys_at_hold(
    entries: Seq<EntryView>,
    indices: Seq<int>,
    variant: Variant,
    at: int,
)
    requires
        0 <= at < indices.len(),
        0 <= indices[at] < entries.len(),
    ensures
        keys_at(entries, indices, variant).contains(entry_key(entries[indices[at]], variant)),
    decreases indices.len(),
{
    let front = keys_at(entries, indices.drop_last(), variant);
    let all = keys_at(entries, indices, variant);
    let key = entry_key(entries[indices[at]], variant);
    if at < indices.len() - 1 {
        lemma_keys_at_hold(entries, indices.drop_last(), variant, at);
        let i = front.index_of(key);
        assert(all[i] == key);
    } else {
        assert(all[front.len() as int] == key);
    }
}

/// Previews that are cancelled are no longer being decoded, and thumbnails still are.
pub proof fn law_cancelling_keeps_thumbnails(view: GuiView, key: TexKeyView)
    ensures
        view.previews_cancelled().inflight.contains(key) <==> view.inflight.contains(key)
            && key.variant == Variant::Thumb,
        view.previews_cancelled().previews == view.previews,
        view.previews_cancelled().thumbs == view.thumbs,
        view.previews_cancelled().failed == view.failed,
{
    reveal(GuiView::previews_cancelled);
    crate::assoc::lemma_filter(view.inflight, |k: TexKeyView| k.variant == Variant::Thumb);
}

/// No texture is lost: one that was kept, in the cache that a decoded one goes to, is kept
/// on or is among those that are not needed any more; and a result of an earlier scan is
/// not needed itself.
pub proof fn law_dropped_textures_are_freed(view: GuiView, decoded: DecodedView, i: int)
    requires
        decoded.texture is Ok,
        view.cache_for(decoded.key.variant).sound(),
        0 <= i < view.cache_for(decoded.key.variant).slots.len(),
    ensures
        ({
            let held = view.cache_for(decoded.key.variant).slots[i];
            decoded.generation == view.scan_generation ==> view.after_decode(decoded).cache_for(
                decoded.key.variant,
            ).slots.contains(held) || view.freed_by(decoded).contains(held.1)
        }),
        decoded.generation != view.scan_generation ==> view.freed_by(decoded) == seq![
            decoded.texture->Ok_0.0,
        ],
        decoded.generation != view.scan_generation ==> view.after_decode(decoded) == view,
{
    reveal(GuiView::texture_stored);
    reveal(GuiView::decode_ended);
    let key = decoded.key;
    let texture = decoded.texture->Ok_0;
    let cache = view.cache_for(key.variant);
    let slot: SlotView = (key.slot(), texture.0, texture.1);
    let budget = byte_budget(key.variant);
    let stored = cache.stored(slot);
    let left = stored.trimmed(budget);
    let held = cache.slots[i];
    if decoded.generation == view.scan_generation {
        assert(view.after_decode(decoded).cache_for(key.variant) == left);
        law_trimmed_cache_is_within_budget(stored, budget);
        law_trimming_drops_what_it_must(stored, budget);
        let gone = freed_for(cache, slot);
        let off = stored.trimmed_off(budget);
        let freed = view.freed_by(decoded);
        assert(freed == gone + off);
        let at: int = if has_slot(cache.slots, slot.0) {
            let place = slot_index(cache.slots, slot.0);
            assert(slot_at(cache.slots, slot.0, place));
            if i < place {
                i + 1
            } else if i == place {
                -1
            } else {
                i
            }
        } else if cache.slots.len() == cache.capacity && i == cache.slots.len() - 1 {
            -1
        } else {
            i + 1
        };
        if at < 0 {
            assert(gone[0] == held.1);
            assert(freed[0] == held.1);
        } else {
            assert(stored.slots[at] == held);
            if at < left.slots.len() {
                assert(left.slots[at] == held);
            } else {
                let place = stored.slots.len() - 1 - at;
                assert(off[place] == held.1);
                assert(freed[gone.len() + place] == held.1);
            }
        }
    }
}

} // verus!
