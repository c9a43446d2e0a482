//! Rendered thumbnails that are kept in memory, within a budget of bytes.

use vstd::prelude::*;

use crate::numbers::{least, most};
use crate::slots::{has_slot, held_by, slot_bytes, CacheView, SlotCache, SlotView};
use crate::thumbnail::ThumbKey;

verus! {

/// A rendered image: its number, and its size in bytes.
#[derive(Debug, Clone, Copy, PartialEq, Eq, Structural)]
pub struct CachedImage {
    pub image: u64,
    pub bytes: usize,
}

/// Slots with the bytes that they are taken to have.
pub struct BudgetView {
    pub cache: CacheView,
    pub current_bytes: usize,
    pub budget_bytes: usize,
}

impl BudgetView {
    /// After slots were dropped, those used least recently first, until the bytes
    /// are within the budget or there are no slots.
    pub open spec fn evicted(self) -> BudgetView
        decreases self.cache.slots.len(),
    {
        if self.current_bytes > self.budget_bytes && self.cache.slots.len() > 0 {
            (BudgetView {
                cache: self.cache.popped(),
                current_bytes: most(self.current_bytes - self.cache.slots.last().2, 0) as usize,
                ..self
            }).evicted()
        } else {
            self
        }
    }

    /// After a slot was stored, where storing it gave back some bytes.
    pub open spec fn stored(self, slot: SlotView, given_back: int) -> BudgetView {
        (BudgetView {
            cache: self.cache.stored(slot),
            current_bytes: least(
                most(self.current_bytes - given_back, 0) + slot.2,
                usize::MAX as int,
            ) as usize,
            ..self
        }).evicted()
    }
}

/// The slots that are left after dropping some are within the budget, or none.
pub proof fn law_eviction_meets_budget(view: BudgetView)
    ensures
        view.evicted().current_bytes <= view.budget_bytes || view.evicted().cache.slots.len()
            == 0,
        view.evicted().budget_bytes == view.budget_bytes,
        view.evicted().cache.capacity == view.cache.capacity,
        view.evicted().cache.slots.len() <= view.cache.slots.len(),
        forall|i: int|
            0 <= i < view.evicted().cache.slots.len() ==> #[trigger] view.evicted().cache.slots[i]
                == view.cache.slots[i],
    decreases view.cache.slots.len(),
{
    if view.current_bytes > view.budget_bytes && view.cache.slots.len() > 0 {
        law_eviction_meets_budget(
            BudgetView {
                cache: view.cache.popped(),
                current_bytes: most(view.current_bytes - view.cache.slots.last().2, 0) as usize,
                ..view
            },
        );
    }
}

/// The number of slots of the memory cache.
pub const MEMORY_CACHE_SLOTS: usize = 4096;

/// Drops slots, those used least recently first, until the bytes are within the
/// budget or there are no slots; returns the bytes left.
pub(crate) fn evict_to_budget(cache: &mut SlotCache, current_bytes: usize, budget_bytes: usize) -> (
    left: usize)
    ensures
        (BudgetView { cache: final(cache)@, current_bytes: left, budget_bytes }) == (BudgetView {
            cache: old(cache)@,
            current_bytes,
            budget_bytes,
        }).evicted(),
{
    let ghost start = BudgetView { cache: cache@, current_bytes, budget_bytes };
    let mut left: usize = current_bytes;
    while left > budget_bytes
        invariant
            (BudgetView { cache: cache@, current_bytes: left, budget_bytes }).evicted()
                == start.evicted(),
        ensures
            (BudgetView { cache: cache@, current_bytes: left, budget_bytes })
                == start.evicted(),
        decreases cache@.slots.len(),
    {
        match cache.pop_lru() {
            Some((_, (_, bytes))) => {
                left = left.saturating_sub(bytes);
            },
            None => {
                break;
            },
        }
    }
    left
}

/// Rendered thumbnails, within a budget of bytes.
pub struct MemoryImageCache {
    cache: SlotCache,
    current_bytes: usize,
    budget_bytes: usize,
}

impl View for MemoryImageCache {
    type V = BudgetView;

    closed spec fn view(&self) -> BudgetView {
        BudgetView {
            cache: self.cache@,
            current_bytes: self.current_bytes,
            budget_bytes: self.budget_bytes,
        }
    }
}

impl MemoryImageCache {
    /// A cache without images.
    pub fn new(budget_bytes: usize) -> (cache: MemoryImageCache)
        ensures
            cache@ == (BudgetView {
                cache: CacheView { slots: Seq::empty(), capacity: MEMORY_CACHE_SLOTS as nat },
                current_bytes: 0,
                budget_bytes: most(budget_bytes as int, 1) as usize,
            }),
    {
        MemoryImageCache {
            cache: SlotCache::new(MEMORY_CACHE_SLOTS),
            current_bytes: 0,
            budget_bytes: if budget_bytes == 0 {
                1
            } else {
                budget_bytes
            },
        }
    }

    /// Uses the image of a key.
    pub fn get(&mut self, key: &ThumbKey) -> (image: Option<u64>)
        ensures
            image == match held_by(old(self)@.cache.slots, key@.slot()) {
                Some(value) => Some(value.0),
                None => None,
            },
            final(self)@ == (BudgetView {
                cache: old(self)@.cache.used(key@.slot()),
                ..old(self)@
            }),
    {
        match self.cache.get(&key.slot_key()) {
            Some((image, _)) => Some(image),
            None => None,
        }
    }

    /// Stores an image. The bytes of an image with the same key are given back;
    /// those of one that is dropped for want of a slot are not.
    pub fn insert(&mut self, key: ThumbKey, image: u64, bytes: usize)
        ensures
            final(self)@ == old(self)@.stored(
                (key@.slot(), image, bytes),
                match held_by(old(self)@.cache.slots, key@.slot()) {
                    Some(value) => value.1 as int,
                    None => 0,
                },
            ),
    {
        match self.cache.put(key.slot_key(), (image, bytes)) {
            Some((_, previous)) => {
                self.current_bytes = self.current_bytes.saturating_sub(previous);
            },
            None => {},
        }
        self.current_bytes = self.current_bytes.saturating_add(bytes);
        self.current_bytes =
        evict_to_budget(&mut self.cache, self.current_bytes, self.budget_bytes);
    }

    /// Whether there is an image for a key.
    pub fn contains(&self, key: &ThumbKey) -> (found: bool)
        ensures
            found == has_slot(self@.cache.slots, key@.slot()),
    {
        self.cache.contains(&key.slot_key())
    }
}

/// No slot is dropped that could stay: a cache within its budget stays as it is, and the
/// slots that are left, with the one that was dropped last, would be over the budget.
pub proof fn law_eviction_drops_what_it_must(view: BudgetView)
    requires
        view.current_bytes == slot_bytes(view.cache.slots),
    ensures
        view.current_bytes <= view.budget_bytes ==> view.evicted() == view,
        ({
            let left = view.evicted().cache.slots.len() as int;
            left < view.cache.slots.len() ==> slot_bytes(view.cache.slots.take(left + 1))
                > view.budget_bytes
        }),
    decreases view.cache.slots.len(),
{
    let slots = view.cache.slots;
    if view.current_bytes > view.budget_bytes && slots.len() > 0 {
        let next = BudgetView {
            cache: view.cache.popped(),
            current_bytes: most(view.current_bytes - slots.last().2, 0) as usize,
            ..view
        };
        lemma_bytes_not_negative(slots.drop_last());
        law_eviction_drops_what_it_must(next);
        law_eviction_meets_budget(next);
        let left = view.evicted().cache.slots.len() as int;
        if left < slots.len() - 1 {
            assert(slots.take(left + 1) =~= next.cache.slots.take(left + 1));
        } else {
            assert(slots.take(left + 1) =~= slots);
        }
    }
}

proof fn lemma_bytes_not_negative(slots: Seq<SlotView>)
    ensures
        slot_bytes(slots) >= 0,
    decreases slots.len(),
{
    if slots.len() > 0 {
        lemma_bytes_not_negative(slots.drop_last());
    }
}

} // verus!
