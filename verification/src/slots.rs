//! Bounded stores of rendered media that drop what was used least recently.

use lru::LruCache;
use std::num::NonZeroUsize;
use vstd::prelude::*;

use crate::path::names_of;

verus! {

/// `lru::LruCache`, a map of bounded size that forgets the entry used least
/// recently.
#[verifier::external_type_specification]
#[verifier::external_body]
#[verifier::reject_recursive_types(K)]
#[verifier::reject_recursive_types(V)]
#[verifier::reject_recursive_types(S)]
pub struct ExLruCache<K, V, S>(lru::LruCache<K, V, S>);

/// `lru::DefaultHasher`, by which a cache finds its keys.
#[verifier::external_type_specification]
#[verifier::external_body]
pub struct ExDefaultHasher(lru::DefaultHasher);

/// What a slot is found by: the path of a media file, a renderer, and numbers
/// that tell apart what was rendered of the file.
pub type SlotKey = (Vec<Vec<u8>>, String, Vec<u128>);

/// The contents of a [`SlotKey`].
pub type KeyView = (Seq<Seq<u8>>, Seq<char>, Seq<u128>);

/// A slot: its key, the number of the rendered media, and its size in bytes.
pub type SlotView = ((Seq<Seq<u8>>, Seq<char>, Seq<u128>), u64, usize);

/// The slots of a cache, the one used last in front.
pub uninterp spec fn lru_slots(
    cache: LruCache<(Vec<Vec<u8>>, String, Vec<u128>), (u64, usize)>,
) -> Seq<((Seq<Seq<u8>>, Seq<char>, Seq<u128>), u64, usize)>;

/// The number of slots that a cache was made for.
pub uninterp spec fn lru_capacity(
    cache: LruCache<(Vec<Vec<u8>>, String, Vec<u128>), (u64, usize)>,
) -> nat;

/// The contents of a key.
pub open spec fn key_of(key: SlotKey) -> KeyView {
    (names_of(key.0@), key.1@, key.2@)
}

/// Whether the slot with a key is at an index.
pub open spec fn slot_at(slots: Seq<SlotView>, key: KeyView, index: int) -> bool {
    0 <= index < slots.len() && slots[index].0 == key
}

/// Whether there is a slot with a key.
pub open spec fn has_slot(slots: Seq<SlotView>, key: KeyView) -> bool {
    exists|index: int| slot_at(slots, key, index)
}

/// The index of the slot with a key.
pub open spec fn slot_index(slots: Seq<SlotView>, key: KeyView) -> int {
    choose|index: int| slot_at(slots, key, index)
}

/// The slots after the one with a key was used.
pub open spec fn slots_used(slots: Seq<SlotView>, key: KeyView) -> Seq<SlotView> {
    if has_slot(slots, key) {
        let index = slot_index(slots, key);
        seq![slots[index]] + slots.remove(index)
    } else {
        slots
    }
}

/// The slots after one was stored: in front, in place of the one with its key,
/// or of the last one where there was no room.
pub open spec fn slots_stored(
    slots: Seq<SlotView>,
    capacity: nat,
    stored: SlotView,
) -> Seq<SlotView> {
    if has_slot(slots, stored.0) {
        seq![stored] + slots.remove(slot_index(slots, stored.0))
    } else if slots.len() == capacity {
        seq![stored] + slots.drop_last()
    } else {
        seq![stored] + slots
    }
}

/// The slots without the one with a key.
pub open spec fn slots_without(slots: Seq<SlotView>, key: KeyView) -> Seq<SlotView> {
    if has_slot(slots, key) {
        slots.remove(slot_index(slots, key))
    } else {
        slots
    }
}

/// `LruCache::unbounded` makes an empty cache, which reserves no room.
#[verifier::external_body]
fn lru_unbounded() -> (cache: LruCache<SlotKey, (u64, usize)>)
    ensures
        lru_slots(cache) == Seq::<SlotView>::empty(),
        lru_capacity(cache) == usize::MAX,
{
    LruCache::unbounded()
}

/// `LruCache::contains` looks a key up without using its slot.
#[verifier::external_body]
fn lru_contains(cache: &LruCache<SlotKey, (u64, usize)>, key: &SlotKey) -> (found: bool)
    ensures
        found == has_slot(lru_slots(*cache), key_of(*key)),
{
    cache.contains(key)
}

/// `LruCache::get` returns what the slot with a key holds, and moves it to the
/// front.
#[verifier::external_body]
fn lru_get(cache: &mut LruCache<SlotKey, (u64, usize)>, key: &SlotKey) -> (value: Option<
    (u64, usize),
>)
    ensures
        value == held_by(lru_slots(*old(cache)), key_of(*key)),
        lru_slots(*final(cache)) == slots_used(lru_slots(*old(cache)), key_of(*key)),
        lru_capacity(*final(cache)) == lru_capacity(*old(cache)),
{
    cache.get(key).copied()
}

/// `LruCache::put` stores a slot in front and returns what the slot with its key
/// held; a slot that is dropped for want of room is not returned.
#[verifier::external_body]
fn lru_put(cache: &mut LruCache<SlotKey, (u64, usize)>, key: SlotKey, value: (u64, usize)) -> (old_value:
    Option<(u64, usize)>)
    ensures
        old_value == held_by(lru_slots(*old(cache)), key_of(key)),
        lru_slots(*final(cache)) == slots_stored(
            lru_slots(*old(cache)),
            lru_capacity(*old(cache)),
            (key_of(key), value.0, value.1),
        ),
        lru_capacity(*final(cache)) == lru_capacity(*old(cache)),
{
    cache.put(key, value)
}

/// `LruCache::push` stores a slot in front and returns the slot that made room
/// for it: the one with its key, or the last one of a full cache.
#[verifier::external_body]
fn lru_push(cache: &mut LruCache<SlotKey, (u64, usize)>, key: SlotKey, value: (u64, usize)) -> (gone:
    Option<(SlotKey, (u64, usize))>)
    ensures
        slot_of(gone) == made_room(
            lru_slots(*old(cache)),
            lru_capacity(*old(cache)),
            key_of(key),
        ),
        lru_slots(*final(cache)) == slots_stored(
            lru_slots(*old(cache)),
            lru_capacity(*old(cache)),
            (key_of(key), value.0, value.1),
        ),
        lru_capacity(*final(cache)) == lru_capacity(*old(cache)),
{
    cache.push(key, value)
}

/// `LruCache::pop_lru` takes the last slot out.
#[verifier::external_body]
fn lru_pop(cache: &mut LruCache<SlotKey, (u64, usize)>) -> (gone: Option<
    (SlotKey, (u64, usize)),
>)
    ensures
        slot_of(gone) == last_slot(lru_slots(*old(cache))),
        lru_slots(*final(cache)) == if lru_slots(*old(cache)).len() > 0 {
            lru_slots(*old(cache)).drop_last()
        } else {
            lru_slots(*old(cache))
        },
        lru_capacity(*final(cache)) == lru_capacity(*old(cache)),
{
    cache.pop_lru()
}

/// `LruCache::pop` takes the slot with a key out and returns what it held.
#[verifier::external_body]
fn lru_take(cache: &mut LruCache<SlotKey, (u64, usize)>, key: &SlotKey) -> (value: Option<
    (u64, usize),
>)
    ensures
        value == held_by(lru_slots(*old(cache)), key_of(*key)),
        lru_slots(*final(cache)) == slots_without(lru_slots(*old(cache)), key_of(*key)),
        lru_capacity(*final(cache)) == lru_capacity(*old(cache)),
{
    cache.pop(key)
}

/// `LruCache::clear` takes every slot out.
#[verifier::external_body]
fn lru_clear(cache: &mut LruCache<SlotKey, (u64, usize)>)
    ensures
        lru_slots(*final(cache)) == Seq::<SlotView>::empty(),
        lru_capacity(*final(cache)) == lru_capacity(*old(cache)),
{
    cache.clear()
}

/// `LruCache::cap` returns the number of slots that there is room for.
#[verifier::external_body]
fn lru_cap(cache: &LruCache<SlotKey, (u64, usize)>) -> (capacity: usize)
    ensures
        capacity == lru_capacity(*cache),
        capacity > 0,
{
    cache.cap().get()
}

/// `LruCache::resize` makes room for another number of slots and drops the last
/// ones where there are more.
#[verifier::external_body]
fn lru_resize(cache: &mut LruCache<SlotKey, (u64, usize)>, capacity: usize)
    requires
        capacity > 0,
    ensures
        lru_slots(*final(cache)) == if lru_slots(*old(cache)).len() > capacity {
            lru_slots(*old(cache)).take(capacity as int)
        } else {
            lru_slots(*old(cache))
        },
        lru_capacity(*final(cache)) == capacity,
{
    cache.resize(NonZeroUsize::new(capacity).unwrap())
}

/// `LruCache::iter` visits the slots, the one used last first.
#[verifier::external_body]
fn lru_values(cache: &LruCache<SlotKey, (u64, usize)>) -> (values: Vec<(u64, usize)>)
    ensures
        values@.len() == lru_slots(*cache).len(),
        forall|i: int|
            0 <= i < values@.len() ==> #[trigger] values@[i] == (
                lru_slots(*cache)[i].1,
                lru_slots(*cache)[i].2,
            ),
{
    cache.iter().map(|(_, value)| *value).collect()
}

/// What the slot with a key holds.
pub open spec fn held_by(slots: Seq<SlotView>, key: KeyView) -> Option<(u64, usize)> {
    if has_slot(slots, key) {
        let slot = slots[slot_index(slots, key)];
        Some((slot.1, slot.2))
    } else {
        None
    }
}

/// The slot that makes room for one with a key.
pub open spec fn made_room(
    slots: Seq<SlotView>,
    capacity: nat,
    key: KeyView,
) -> Option<SlotView> {
    if has_slot(slots, key) {
        Some(slots[slot_index(slots, key)])
    } else if slots.len() == capacity {
        last_slot(slots)
    } else {
        None
    }
}

/// The slot that was used least recently.
pub open spec fn last_slot(slots: Seq<SlotView>) -> Option<SlotView> {
    if slots.len() > 0 {
        Some(slots.last())
    } else {
        None
    }
}

/// The contents of an optional slot.
pub open spec fn slot_of(slot: Option<(SlotKey, (u64, usize))>) -> Option<SlotView> {
    match slot {
        Some((key, value)) => Some((key_of(key), value.0, value.1)),
        None => None,
    }
}

/// The bytes of all slots together.
pub open spec fn slot_bytes(slots: Seq<SlotView>) -> int
    decreases slots.len(),
{
    if slots.len() == 0 {
        0
    } else {
        slot_bytes(slots.drop_last()) + slots.last().2
    }
}

/// Whether no two slots have the same key.
pub open spec fn keys_distinct(slots: Seq<SlotView>) -> bool {
    forall|i: int, j: int|
        0 <= i < j < slots.len() ==> (#[trigger] slots[i]).0 != (#[trigger] slots[j]).0
}

/// A bounded store of rendered media.
pub struct SlotCache {
    cache: LruCache<SlotKey, (u64, usize)>,
}

/// The contents of a [`SlotCache`].
pub struct CacheView {
    pub slots: Seq<SlotView>,
    pub capacity: nat,
}

impl View for SlotCache {
    type V = CacheView;

    closed spec fn view(&self) -> CacheView {
        CacheView { slots: lru_slots(self.cache), capacity: lru_capacity(self.cache) }
    }
}

impl CacheView {
    /// The cache without slots.
    pub open spec fn emptied(self) -> CacheView {
        CacheView { slots: Seq::empty(), ..self }
    }

    /// The cache after the slot with a key was used.
    pub open spec fn used(self, key: KeyView) -> CacheView {
        CacheView { slots: slots_used(self.slots, key), ..self }
    }

    /// The cache after a slot was stored.
    pub open spec fn stored(self, slot: SlotView) -> CacheView {
        CacheView { slots: slots_stored(self.slots, self.capacity, slot), ..self }
    }

    /// The cache without the slot with a key.
    pub open spec fn without(self, key: KeyView) -> CacheView {
        CacheView { slots: slots_without(self.slots, key), ..self }
    }

    /// The cache without the slot used least recently.
    pub open spec fn popped(self) -> CacheView {
        CacheView {
            slots: if self.slots.len() > 0 {
                self.slots.drop_last()
            } else {
                self.slots
            },
            ..self
        }
    }

    /// Whether the slots hold more bytes than a budget, and one of them can go.
    pub open spec fn over(self, budget: int) -> bool {
        slot_bytes(self.slots) > budget && self.slots.len() > 1
    }

    /// The cache after slots were dropped, those used least recently first, until the
    /// others are within a budget of bytes; the one used last stays.
    pub open spec fn trimmed(self, budget: int) -> CacheView
        decreases self.slots.len(),
    {
        if self.over(budget) {
            self.popped().trimmed(budget)
        } else {
            self
        }
    }

    /// What the slots held that are dropped to keep within a budget.
    pub open spec fn trimmed_off(self, budget: int) -> Seq<u64>
        decreases self.slots.len(),
    {
        if self.over(budget) {
            seq![self.slots.last().1] + self.popped().trimmed_off(budget)
        } else {
            Seq::empty()
        }
    }

    /// Whether no two slots have the same key, and there is room for them all.
    pub open spec fn sound(self) -> bool {
        &&& keys_distinct(self.slots)
        &&& 0 < self.capacity
        &&& self.slots.len() <= self.capacity
    }
}

impl SlotCache {
    /// A cache without slots.
    pub fn new(capacity: usize) -> (cache: SlotCache)
        requires
            0 < capacity,
        ensures
            cache@ == (CacheView { slots: Seq::empty(), capacity: capacity as nat }),
    {
        let mut cache = lru_unbounded();
        lru_resize(&mut cache, capacity);
        SlotCache { cache }
    }

    /// Whether there is a slot with a key.
    pub fn contains(&self, key: &SlotKey) -> (found: bool)
        ensures
            found == has_slot(self@.slots, key_of(*key)),
    {
        lru_contains(&self.cache, key)
    }

    /// Uses the slot with a key and returns what it holds.
    pub fn get(&mut self, key: &SlotKey) -> (value: Option<(u64, usize)>)
        ensures
            value == held_by(old(self)@.slots, key_of(*key)),
            final(self)@ == old(self)@.used(key_of(*key)),
    {
        lru_get(&mut self.cache, key)
    }

    /// Stores a slot and returns what the slot with its key held.
    pub fn put(&mut self, key: SlotKey, value: (u64, usize)) -> (old_value: Option<(u64, usize)>)
        ensures
            old_value == held_by(old(self)@.slots, key_of(key)),
            final(self)@ == old(self)@.stored((key_of(key), value.0, value.1)),
    {
        lru_put(&mut self.cache, key, value)
    }

    /// Stores a slot and returns the one that made room for it.
    pub fn push(&mut self, key: SlotKey, value: (u64, usize)) -> (gone: Option<
        (SlotKey, (u64, usize)),
    >)
        ensures
            slot_of(gone) == made_room(old(self)@.slots, old(self)@.capacity, key_of(key)),
            final(self)@ == old(self)@.stored((key_of(key), value.0, value.1)),
    {
        lru_push(&mut self.cache, key, value)
    }

    /// Takes the slot used least recently out.
    pub fn pop_lru(&mut self) -> (gone: Option<(SlotKey, (u64, usize))>)
        ensures
            slot_of(gone) == last_slot(old(self)@.slots),
            final(self)@ == old(self)@.popped(),
    {
        lru_pop(&mut self.cache)
    }

    /// Takes the slot with a key out and returns what it held.
    pub fn take(&mut self, key: &SlotKey) -> (value: Option<(u64, usize)>)
        ensures
            value == held_by(old(self)@.slots, key_of(*key)),
            final(self)@ == old(self)@.without(key_of(*key)),
    {
        lru_take(&mut self.cache, key)
    }

    /// The bytes of all slots together.
    pub fn bytes(&self) -> (bytes: u128)
        ensures
            bytes == slot_bytes(self@.slots),
    {
        let values = lru_values(&self.cache);
        let ghost slots = self@.slots;
        let mut total: u128 = 0;
        let mut index: usize = 0;
        assert(slots.take(0) =~= Seq::empty());
        while index < values.len()
            invariant
                values@.len() == slots.len(),
                forall|i: int|
                    0 <= i < values@.len() ==> #[trigger] values@[i] == (slots[i].1, slots[i].2),
                index <= values@.len(),
                total == slot_bytes(slots.take(index as int)),
                total <= index * usize::MAX,
            decreases values@.len() - index,
        {
            let (_, size) = values[index];
            proof {
                assert(slots.take(index + 1).drop_last() =~= slots.take(index as int));
                assert(slots.take(index + 1).last() == slots[index as int]);
                assert((index + 1) * usize::MAX == index * usize::MAX + usize::MAX)
                    by (nonlinear_arith);
                assert((index + 1) * usize::MAX <= u128::MAX) by (nonlinear_arith)
                    requires
                        index < usize::MAX,
                        usize::MAX <= 0xffff_ffff_ffff_ffff,
                ;
            }
            total += size as u128;
            index += 1;
        }
        assert(slots.take(index as int) =~= slots);
        total
    }

    /// The number of slots.
    pub fn len(&self) -> (len: usize)
        ensures
            len == self@.slots.len(),
    {
        lru_values(&self.cache).len()
    }

    /// Drops slots, those used least recently first, until the others are within a
    /// budget of bytes; the one used last stays. Returns what the dropped ones held.
    pub fn trim(&mut self, budget: u128) -> (gone: Vec<u64>)
        ensures
            final(self)@ == old(self)@.trimmed(budget as int),
            gone@ == old(self)@.trimmed_off(budget as int),
    {
        let ghost start = self@;
        let mut gone: Vec<u64> = Vec::new();
        let mut bytes: u128 = self.bytes();
        let mut len: usize = self.len();
        assert(gone@ + self@.trimmed_off(budget as int) =~= start.trimmed_off(budget as int));
        while bytes > budget && len > 1
            invariant
                bytes == slot_bytes(self@.slots),
                len == self@.slots.len(),
                self@.trimmed(budget as int) == start.trimmed(budget as int),
                gone@ + self@.trimmed_off(budget as int) == start.trimmed_off(budget as int),
            decreases len,
        {
            let ghost before = self@;
            let ghost held = gone@;
            proof {
                lemma_bytes_count(before.slots.drop_last());
            }
            match self.pop_lru() {
                Some((_, (number, size))) => {
                    gone.push(number);
                    bytes -= size as u128;
                    len -= 1;
                },
                None => {},
            }
            assert(gone@ + self@.trimmed_off(budget as int) =~= held + before.trimmed_off(
                budget as int,
            ));
        }
        assert(gone@ + self@.trimmed_off(budget as int) =~= gone@);
        gone
    }

    /// Takes every slot out.
    pub fn clear(&mut self)
        ensures
            final(self)@ == old(self)@.emptied(),
    {
        lru_clear(&mut self.cache)
    }

    /// The number of slots that there is room for.
    pub fn capacity(&self) -> (capacity: usize)
        ensures
            capacity == self@.capacity,
            capacity > 0,
    {
        lru_cap(&self.cache)
    }

    /// Makes room for another number of slots.
    pub fn resize(&mut self, capacity: usize)
        requires
            capacity > 0,
        ensures
            final(self)@ == (CacheView {
                slots: if old(self)@.slots.len() > capacity {
                    old(self)@.slots.take(capacity as int)
                } else {
                    old(self)@.slots
                },
                capacity: capacity as nat,
            }),
    {
        lru_resize(&mut self.cache, capacity)
    }
}

/// Using and storing slots keeps a cache sound; a stored slot is in front.
pub proof fn law_cache_stays_sound(cache: CacheView, key: KeyView, slot: SlotView)
    requires
        cache.sound(),
    ensures
        cache.used(key).sound(),
        cache.stored(slot).sound(),
        cache.popped().sound(),
        cache.stored(slot).slots[0] == slot,
        has_slot(cache.stored(slot).slots, slot.0),
        held_by(cache.stored(slot).slots, slot.0) == Some((slot.1, slot.2)),
        has_slot(cache.used(key).slots, key) == has_slot(cache.slots, key),
{
    let stored = cache.stored(slot);
    assert(slot_at(stored.slots, slot.0, 0));
    assert(keys_distinct(stored.slots)) by {
        let old_slots = cache.slots;
        let at = slot_index(old_slots, slot.0);
        let present = has_slot(old_slots, slot.0);
        assert(present ==> slot_at(old_slots, slot.0, at));
        assert forall|i: int| 0 <= i < old_slots.len() && (!present || i != at) implies (
        #[trigger] old_slots[i]).0 != slot.0 by {
            if old_slots[i].0 == slot.0 {
                assert(slot_at(old_slots, slot.0, i));
            }
        }
        assert forall|i: int, j: int| 0 <= i < j < stored.slots.len() implies (
        #[trigger] stored.slots[i]).0 != (#[trigger] stored.slots[j]).0 by {
            let from = |k: int| if present && k - 1 >= at { k } else { k - 1 };
            assert(stored.slots[j] == old_slots[from(j)]);
            if i > 0 {
                assert(stored.slots[i] == old_slots[from(i)]);
            }
        }
    }
    let found = slot_index(stored.slots, slot.0);
    assert(slot_at(stored.slots, slot.0, found));
    if found > 0 {
        assert(stored.slots[0].0 != stored.slots[found].0);
    }
    if has_slot(cache.slots, key) {
        let at = slot_index(cache.slots, key);
        assert(slot_at(cache.slots, key, at));
        assert(slot_at(cache.used(key).slots, key, 0));
    }
}

proof fn lemma_bytes_count(slots: Seq<SlotView>)
    ensures
        0 <= slot_bytes(slots),
    decreases slots.len(),
{
    if slots.len() > 0 {
        lemma_bytes_count(slots.drop_last());
    }
}

/// A cache that was trimmed is within its budget, or holds one slot alone; the slots
/// that stay are those used most recently, and the cache stays sound.
pub proof fn law_trimmed_cache_is_within_budget(cache: CacheView, budget: int)
    ensures
        ({
            let left = cache.trimmed(budget);
            &&& slot_bytes(left.slots) <= budget || left.slots.len() <= 1
            &&& left.slots.len() <= cache.slots.len()
            &&& left.slots == cache.slots.take(left.slots.len() as int)
            &&& cache.slots.len() > 0 ==> left.slots.len() > 0
            &&& left.slots.len() + cache.trimmed_off(budget).len() == cache.slots.len()
            &&& left.capacity == cache.capacity
            &&& cache.sound() ==> left.sound()
        }),
    decreases cache.slots.len(),
{
    let left = cache.trimmed(budget);
    if cache.over(budget) {
        law_trimmed_cache_is_within_budget(cache.popped(), budget);
        assert(cache.slots.take(left.slots.len() as int) =~= cache.popped().slots.take(
            left.slots.len() as int,
        ));
    } else {
        assert(cache.slots.take(left.slots.len() as int) =~= cache.slots);
    }
}

/// Taking a slot out keeps a cache sound, and takes out that slot alone.
pub proof fn law_taking_a_slot(cache: CacheView, key: KeyView, other: KeyView)
    requires
        cache.sound(),
    ensures
        cache.without(key).sound(),
        has_slot(cache.without(key).slots, other) <==> other != key && has_slot(
            cache.slots,
            other,
        ),
{
    let slots = cache.slots;
    let rest = cache.without(key).slots;
    if has_slot(slots, key) {
        let at = slot_index(slots, key);
        assert(slot_at(slots, key, at));
        if has_slot(rest, other) {
            let i = slot_index(rest, other);
            assert(slot_at(rest, other, i));
            let from = if i < at {
                i
            } else {
                i + 1
            };
            assert(slots[from] == rest[i]);
            assert(slot_at(slots, other, from));
            if other == key {
                assert(slots[from].0 == slots[at].0);
            }
        }
        if has_slot(slots, other) && other != key {
            let i = slot_index(slots, other);
            assert(slot_at(slots, other, i));
            let to = if i < at {
                i
            } else {
                i - 1
            };
            assert(rest[to] == slots[i]);
            assert(slot_at(rest, other, to));
        }
    }
}

proof fn lemma_held_at(slots: Seq<SlotView>, key: KeyView, index: int)
    requires
        keys_distinct(slots),
        slot_at(slots, key, index),
    ensures
        held_by(slots, key) == Some((slots[index].1, slots[index].2)),
        slot_index(slots, key) == index,
{
    let found = slot_index(slots, key);
    assert(slot_at(slots, key, found));
    if found < index {
        assert(slots[found].0 != slots[index].0);
    }
    if index < found {
        assert(slots[index].0 != slots[found].0);
    }
}

/// Slots that are the same but for one, in whatever order, hold the same of every other key.
proof fn lemma_held_alike(
    slots: Seq<SlotView>,
    others: Seq<SlotView>,
    key: KeyView,
    there: spec_fn(int) -> int,
    back: spec_fn(int) -> int,
)
    requires
        keys_distinct(slots),
        keys_distinct(others),
        forall|i: int| #[trigger]
            slot_at(slots, key, i) ==> 0 <= there(i) < others.len() && others[there(i)]
                == slots[i],
        forall|i: int| #[trigger]
            slot_at(others, key, i) ==> 0 <= back(i) < slots.len() && slots[back(i)]
                == others[i],
    ensures
        held_by(slots, key) == held_by(others, key),
        has_slot(slots, key) == has_slot(others, key),
{
    if has_slot(slots, key) {
        let i = slot_index(slots, key);
        assert(slot_at(slots, key, i));
        assert(slot_at(others, key, there(i)));
        lemma_held_at(others, key, there(i));
    }
    if has_slot(others, key) {
        let i = slot_index(others, key);
        assert(slot_at(others, key, i));
        assert(slot_at(slots, key, back(i)));
    }
}

/// Using a slot puts it in front, and changes nothing of what any slot holds.
pub proof fn law_using_a_slot(cache: CacheView, key: KeyView, other: KeyView)
    requires
        cache.sound(),
    ensures
        has_slot(cache.slots, key) ==> cache.used(key).slots[0].0 == key,
        !has_slot(cache.slots, key) ==> cache.used(key) == cache,
        cache.used(key).slots.len() == cache.slots.len(),
        held_by(cache.used(key).slots, other) == held_by(cache.slots, other),
{
    law_cache_stays_sound(cache, key, (key, 0, 0));
    if has_slot(cache.slots, key) {
        let at = slot_index(cache.slots, key);
        assert(slot_at(cache.slots, key, at));
        let after = cache.used(key).slots;
        let there = |i: int|
            if i == at {
                0
            } else if i < at {
                i + 1
            } else {
                i
            };
        let back = |i: int|
            if i == 0 {
                at
            } else if i <= at {
                i - 1
            } else {
                i
            };
        lemma_held_alike(cache.slots, after, other, there, back);
    }
}

/// Storing a slot leaves all others as they are where there is room for one more, or the
/// key had a slot; else only the one that was used least recently goes.
pub proof fn law_storing_a_slot(cache: CacheView, slot: SlotView, other: KeyView)
    requires
        cache.sound(),
        other != slot.0,
        has_slot(cache.slots, slot.0) || cache.slots.len() < cache.capacity || other
            != cache.slots.last().0,
    ensures
        held_by(cache.stored(slot).slots, other) == held_by(cache.slots, other),
        cache.stored(slot).capacity == cache.capacity,
{
    law_cache_stays_sound(cache, slot.0, slot);
    let after = cache.stored(slot).slots;
    if has_slot(cache.slots, slot.0) {
        let at = slot_index(cache.slots, slot.0);
        assert(slot_at(cache.slots, slot.0, at));
        let there = |i: int|
            if i < at {
                i + 1
            } else {
                i
            };
        let back = |i: int|
            if i <= at {
                i - 1
            } else {
                i
            };
        lemma_held_alike(cache.slots, after, other, there, back);
    } else {
        lemma_held_alike(cache.slots, after, other, |i: int| i + 1, |i: int| i - 1);
    }
}

/// No slot is dropped that could stay: with the one dropped last, the slots would be over
/// the budget; a cache within its budget stays as it is.
pub proof fn law_trimming_drops_what_it_must(cache: CacheView, budget: int)
    ensures
        slot_bytes(cache.slots) <= budget ==> cache.trimmed(budget) == cache,
        ({
            let left = cache.trimmed(budget).slots.len() as int;
            left < cache.slots.len() ==> slot_bytes(cache.slots.take(left + 1)) > budget
        }),
        forall|i: int|
            0 <= i < cache.trimmed_off(budget).len() ==> i < cache.slots.len()
                && #[trigger] cache.trimmed_off(budget)[i] == cache.slots[cache.slots.len() - 1
                - i].1,
    decreases cache.slots.len(),
{
    if cache.over(budget) {
        law_trimming_drops_what_it_must(cache.popped(), budget);
        law_trimmed_cache_is_within_budget(cache.popped(), budget);
        let left = cache.trimmed(budget).slots.len() as int;
        if left < cache.slots.len() - 1 {
            assert(cache.slots.take(left + 1) =~= cache.popped().slots.take(left + 1));
        } else {
            assert(cache.slots.take(left + 1) =~= cache.slots);
        }
        let off = cache.trimmed_off(budget);
        let rest = cache.popped().trimmed_off(budget);
        assert forall|i: int| 0 <= i < off.len() implies i < cache.slots.len()
            && #[trigger] off[i] == cache.slots[cache.slots.len() - 1 - i].1 by {
            if i > 0 {
                assert(off[i] == rest[i - 1]);
            }
        }
    }
}

} // verus!
