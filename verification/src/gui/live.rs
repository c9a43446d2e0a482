//! Bringing the window up to date while files change.
//!
//! The files are watched and scanned outside; a refresh that found changes is taken
//! here.

use vstd::prelude::*;

use crate::assoc::{law_map_removal, map_has, map_without, set_with, Key, KeySet};
use crate::path::{paths_copy, MediaPath, PathNames};
use crate::refresh::{law_refresh_unmarks_changed_files, MediaRefreshOutput};
use crate::slots::{has_slot, held_by, law_taking_a_slot};
use crate::state::{
    entries_of, find_entry, lists_path, EntryView, MediaEntry, StateView, ViewMode,
};

use super::textures::{law_texture_slots_are_distinct, TexKey, TexKeyView, Variant};
use super::window::{number_after, GuiApp, GuiView};
use super::work::{entry_key, keys_of, DecodedView};

verus! {

/// The textures of a file, in every size.
pub open spec fn file_keys(entry: EntryView) -> Seq<TexKeyView> {
    seq![
        entry_key(entry, Variant::Fit),
        entry_key(entry, Variant::Original),
        entry_key(entry, Variant::Thumb),
    ]
}

/// The textures of those of the first `count` entries whose files changed.
pub open spec fn changed_keys(
    entries: Seq<EntryView>,
    changed: Seq<PathNames>,
    count: nat,
) -> Seq<TexKeyView>
    decreases count,
{
    if count == 0 {
        Seq::empty()
    } else {
        let front = changed_keys(entries, changed, (count - 1) as nat);
        if changed.contains(entries[count - 1].path) {
            front + file_keys(entries[count - 1])
        } else {
            front
        }
    }
}

/// A set of newcomers with those of the first `count` entries that were not listed.
pub open spec fn arrivals(
    known: Seq<EntryView>,
    entries: Seq<EntryView>,
    arrived: Seq<PathNames>,
    count: nat,
) -> Seq<PathNames>
    decreases count,
{
    if count == 0 {
        arrived
    } else {
        let front = arrivals(known, entries, arrived, (count - 1) as nat);
        if lists_path(known, entries[count - 1].path) {
            front
        } else {
            set_with(front, entries[count - 1].path)
        }
    }
}

impl GuiView {
    /// The window that knows the files of a list that were not listed before as
    /// newcomers.
    #[verifier::opaque]
    pub open spec fn arrivals_noted(self, entries: Seq<EntryView>) -> GuiView {
        GuiView {
            arrived: arrivals(self.state.entries, entries, self.arrived, entries.len()),
            ..self
        }
    }

    /// The window that neither keeps a texture nor knows why it could not be decoded.
    #[verifier::opaque]
    pub open spec fn texture_dropped(self, key: TexKeyView) -> GuiView {
        if key.variant == Variant::Thumb {
            GuiView {
                thumbs: self.thumbs.without(key.slot()),
                failed: map_without(self.failed, key),
                ..self
            }
        } else {
            GuiView {
                previews: self.previews.without(key.slot()),
                failed: map_without(self.failed, key),
                ..self
            }
        }
    }

    /// The window without a list of textures.
    pub open spec fn textures_dropped(self, keys: Seq<TexKeyView>) -> GuiView
        decreases keys.len(),
    {
        if keys.len() == 0 {
            self
        } else {
            self.textures_dropped(keys.drop_last()).texture_dropped(keys.last())
        }
    }

    /// The textures that are not needed any more without a list of textures.
    pub open spec fn freed_with(self, keys: Seq<TexKeyView>) -> Seq<u64>
        decreases keys.len(),
    {
        if keys.len() == 0 {
            Seq::empty()
        } else {
            let front = self.freed_with(keys.drop_last());
            let rest = self.textures_dropped(keys.drop_last());
            match held_by(rest.cache_for(keys.last().variant).slots, keys.last().slot()) {
                Some(held) => front.push(held.0),
                None => front,
            }
        }
    }

    /// The window that refuses what is being decoded.
    #[verifier::opaque]
    pub open spec fn decodes_refused(self) -> GuiView {
        GuiView {
            inflight: Seq::empty(),
            scan_generation: number_after(self.scan_generation),
            ..self
        }
    }

    /// Whether the active video goes on in a state: its file did not change, and it is
    /// still the current entry.
    pub open spec fn video_goes_on(self, state: StateView, changed: Seq<PathNames>) -> bool {
        match self.active_video {
            Some(video) => !changed.contains(video.handle.path) && state.current_path() == Some(
                video.handle.path,
            ),
            None => true,
        }
    }

    /// The window with another state.
    #[verifier::opaque]
    pub open spec fn with_state(self, state: StateView) -> GuiView {
        GuiView { state, scroll_to_current: true, ..self }
    }

    /// The window after a refresh that found a list of entries: it keeps what is
    /// decoded of files that did not change.
    pub open spec fn live_refreshed(
        self,
        entries: Seq<EntryView>,
        changed: Seq<PathNames>,
    ) -> GuiView {
        let keys = changed_keys(self.state.entries, changed, self.state.entries.len());
        let state = self.state.refreshed(entries, changed);
        let kept = self.textures_dropped(keys).decodes_refused().arrivals_noted(
            entries,
        ).with_state(state);
        if self.video_goes_on(state, changed) {
            kept
        } else {
            kept.video_stopped()
        }
    }

    /// Whether refreshes wait: a video is paused in the preview.
    pub open spec fn refresh_waits(self) -> bool {
        self.state.mode == ViewMode::Preview && match self.active_current() {
            Some(video) => video.handle.controls.paused && !video.ended,
            None => false,
        }
    }
}

impl GuiApp {
    /// Drops a texture; returns it where it was kept.
    fn drop_texture(&mut self, key: &TexKey) -> (freed: Option<u64>)
        ensures
            final(self)@ == old(self)@.texture_dropped(key@),
            freed == match held_by(old(self)@.cache_for(key@.variant).slots, key@.slot()) {
                Some(held) => Some(held.0),
                None => None,
            },
    {
        proof {
            reveal(GuiView::texture_dropped);
        }
        let slot = key.slot_key();
        self.failed.remove(key);
        let held = if key.variant == Variant::Thumb {
            self.thumbs.take(&slot)
        } else {
            self.previews.take(&slot)
        };
        match held {
            Some((texture, _)) => Some(texture),
            None => None,
        }
    }

    /// Refuses what is being decoded.
    fn refuse_decodes(&mut self)
        ensures
            final(self)@ == old(self)@.decodes_refused(),
    {
        proof {
            reveal(GuiView::decodes_refused);
        }
        self.inflight.clear();
        self.scan_generation = self.scan_generation.wrapping_add(1);
    }

    /// Whether the active video goes on with a list of changed files.
    fn goes_on(&self, changed: &KeySet<MediaPath>) -> (goes_on: bool)
        ensures
            goes_on == self@.video_goes_on(self@.state, changed@),
    {
        match &self.active_video {
            Some(active) => if changed.contains(active.handle.path()) {
                false
            } else {
                match self.state.current_entry() {
                    Some(entry) => entry.path.same(active.handle.path()),
                    None => false,
                }
            },
            None => true,
        }
    }

    /// Drops a list of textures; returns those that were kept.
    fn drop_textures(&mut self, keys: &Vec<TexKey>) -> (freed: Vec<u64>)
        ensures
            final(self)@ == old(self)@.textures_dropped(keys_of(keys@)),
            freed@ == old(self)@.freed_with(keys_of(keys@)),
    {
        let ghost before = self@;
        let ghost wanted = keys_of(keys@);
        let mut freed: Vec<u64> = Vec::new();
        let mut index: usize = 0;
        assert(wanted.take(0) =~= Seq::empty());
        while index < keys.len()
            invariant
                wanted == keys_of(keys@),
                index <= wanted.len(),
                self@ == before.textures_dropped(wanted.take(index as int)),
                freed@ == before.freed_with(wanted.take(index as int)),
            decreases wanted.len() - index,
        {
            proof {
                assert(wanted.take(index + 1).drop_last() =~= wanted.take(index as int));
                assert(wanted.take(index + 1).last() == keys@[index as int]@);
            }
            match self.drop_texture(&keys[index]) {
                Some(texture) => {
                    freed.push(texture);
                },
                None => {},
            }
            index += 1;
        }
        assert(wanted.take(index as int) =~= wanted);
        freed
    }

    /// Notes which files of a list were not listed before.
    fn note_arrivals(&mut self, entries: &Vec<MediaEntry>)
        ensures
            final(self)@ == old(self)@.arrivals_noted(entries_of(entries@)),
    {
        proof {
            reveal(GuiView::arrivals_noted);
        }
        let ghost before = self@;
        let ghost all = entries_of(entries@);
        let mut index: usize = 0;
        while index < entries.len()
            invariant
                all == entries_of(entries@),
                index <= entries@.len(),
                self@ == (GuiView {
                    arrived: arrivals(before.state.entries, all, before.arrived, index as nat),
                    ..before
                }),
            decreases entries@.len() - index,
        {
            let entry = &entries[index];
            assert(entry@ == all[index as int]);
            if find_entry(&self.state.entries, &entry.path).is_none() {
                self.arrived.insert(entry.path.clone());
            }
            index += 1;
        }
    }

    /// Takes the entries of a refresh into the state.
    fn refresh_state(&mut self, output: MediaRefreshOutput)
        ensures
            final(self)@ == old(self)@.with_state(
                old(self)@.state.refreshed(
                    entries_of(output.entries@),
                    output.invalidated_paths@,
                ),
            ),
    {
        proof {
            reveal(GuiView::with_state);
        }
        self.state.take_refresh(output);
        self.scroll_to_current = true;
    }

    /// Takes the entries of a refresh of the list. A marked file that changed or
    /// disappeared is unmarked, and what was decoded of it is forgotten; all else is
    /// kept. Returns the textures that are not needed any more.
    pub fn take_refresh(&mut self, output: MediaRefreshOutput) -> (freed: Vec<u64>)
        ensures
            final(self)@ == old(self)@.live_refreshed(
                entries_of(output.entries@),
                output.invalidated_paths@,
            ),
            freed@ == old(self)@.freed_with(
                changed_keys(
                    old(self)@.state.entries,
                    output.invalidated_paths@,
                    old(self)@.state.entries.len(),
                ),
            ),
    {
        let ghost before = self@;
        let keys = keys_of_changed(&self.state.entries, &output.invalidated_paths);
        let changed = KeySet { keys: paths_copy(&output.invalidated_paths.keys) };
        assert(changed@ =~= output.invalidated_paths@);
        let freed = self.drop_textures(&keys);
        self.refuse_decodes();
        proof {
            lemma_dropped_keeps(before, keys_of(keys@));
            lemma_refused_keeps(before.textures_dropped(keys_of(keys@)));
            lemma_arrivals_keep(self@, entries_of(output.entries@));
        }
        self.note_arrivals(&output.entries);
        let ghost noted = self@;
        let ghost state = before.state.refreshed(entries_of(output.entries@), changed@);
        self.refresh_state(output);
        proof {
            lemma_with_state(noted, state);
            assert(self@.state == state);
            assert(self@.active_video == before.active_video);
            assert(self@.video_goes_on(state, changed@) == before.video_goes_on(state, changed@));
        }
        if !self.goes_on(&changed) {
            self.stop_active_video();
        }
        freed
    }

    /// Whether refreshes wait: a video is paused in the preview.
    pub fn refresh_waits(&self) -> (waits: bool)
        ensures
            waits == self@.refresh_waits(),
    {
        if self.state.mode != ViewMode::Preview {
            return false;
        }
        match self.state.current_entry() {
            Some(entry) => if entry.media_kind.is_video() {
                match self.active_video_for(&entry.path) {
                    Some(active) => active.handle.is_paused() && !active.ended,
                    None => false,
                }
            } else {
                false
            },
            None => false,
        }
    }
}

/// The textures of those entries whose files changed.
fn keys_of_changed(entries: &Vec<MediaEntry>, changed: &KeySet<MediaPath>) -> (keys: Vec<TexKey>)
    ensures
        keys_of(keys@) == changed_keys(entries_of(entries@), changed@, entries@.len()),
{
    let ghost all = entries_of(entries@);
    let mut keys: Vec<TexKey> = Vec::new();
    let mut index: usize = 0;
    assert(keys_of(keys@) =~= Seq::empty());
    while index < entries.len()
        invariant
            all == entries_of(entries@),
            index <= entries@.len(),
            keys_of(keys@) == changed_keys(all, changed@, index as nat),
        decreases entries@.len() - index,
    {
        let entry = &entries[index];
        let ghost before = keys@;
        if changed.contains(&entry.path) {
            keys.push(
                TexKey {
                    path: entry.path.clone(),
                    variant: Variant::Fit,
                    media_kind: entry.media_kind,
                },
            );
            keys.push(
                TexKey {
                    path: entry.path.clone(),
                    variant: Variant::Original,
                    media_kind: entry.media_kind,
                },
            );
            keys.push(
                TexKey {
                    path: entry.path.clone(),
                    variant: Variant::Thumb,
                    media_kind: entry.media_kind,
                },
            );
            assert(keys_of(keys@) =~= keys_of(before) + file_keys(all[index as int]));
        }
        index += 1;
    }
    keys
}

proof fn lemma_refused_keeps(view: GuiView)
    ensures
        view.decodes_refused().state == view.state,
        view.decodes_refused().active_video == view.active_video,
{
    reveal(GuiView::decodes_refused);
}

proof fn lemma_arrivals_keep(view: GuiView, entries: Seq<EntryView>)
    ensures
        view.arrivals_noted(entries).state == view.state,
        view.arrivals_noted(entries).active_video == view.active_video,
{
    reveal(GuiView::arrivals_noted);
}

proof fn lemma_with_state(view: GuiView, state: StateView)
    ensures
        view.with_state(state).state == state,
        view.with_state(state).active_video == view.active_video,
{
    reveal(GuiView::with_state);
}

/// Dropping textures changes nothing but the caches and the failures.
proof fn lemma_dropped_keeps(view: GuiView, keys: Seq<TexKeyView>)
    ensures
        view.textures_dropped(keys).state == view.state,
        view.textures_dropped(keys).active_video == view.active_video,
        view.textures_dropped(keys).scan_generation == view.scan_generation,
    decreases keys.len(),
{
    if keys.len() > 0 {
        lemma_dropped_keeps(view, keys.drop_last());
        reveal(GuiView::texture_dropped);
    }
}

/// Dropping a texture drops it alone, and keeps the caches sound.
proof fn lemma_dropped_one(view: GuiView, key: TexKeyView, other: TexKeyView)
    requires
        view.previews.sound(),
        view.thumbs.sound(),
    ensures
        view.texture_dropped(key).previews.sound(),
        view.texture_dropped(key).thumbs.sound(),
        view.texture_dropped(key).keeps(other) <==> view.keeps(other) && other != key,
        view.texture_dropped(key).knows_failure(other) <==> view.knows_failure(other) && other
            != key,
{
    reveal(GuiView::texture_dropped);
    law_map_removal(view.failed, key, other);
    law_texture_slots_are_distinct(key, other);
    law_taking_a_slot(view.thumbs, key.slot(), other.slot());
    law_taking_a_slot(view.previews, key.slot(), other.slot());
}

proof fn lemma_dropped_all(view: GuiView, keys: Seq<TexKeyView>, other: TexKeyView)
    requires
        view.previews.sound(),
        view.thumbs.sound(),
    ensures
        view.textures_dropped(keys).previews.sound(),
        view.textures_dropped(keys).thumbs.sound(),
        view.textures_dropped(keys).keeps(other) <==> view.keeps(other) && !keys.contains(other),
        view.textures_dropped(keys).knows_failure(other) <==> view.knows_failure(other)
            && !keys.contains(other),
    decreases keys.len(),
{
    if keys.len() > 0 {
        let front = keys.drop_last();
        lemma_dropped_all(view, front, other);
        lemma_dropped_one(view.textures_dropped(front), keys.last(), other);
        if front.contains(other) {
            let i = front.index_of(other);
            assert(keys[i] == other);
        }
        if keys.contains(other) {
            let i = keys.index_of(other);
            if i < front.len() {
                assert(front[i] == other);
            }
        }
        assert(keys[keys.len() - 1] == keys.last());
    }
}

proof fn lemma_changed_keys(
    entries: Seq<EntryView>,
    changed: Seq<PathNames>,
    count: nat,
    key: TexKeyView,
)
    requires
        count <= entries.len(),
    ensures
        changed_keys(entries, changed, count).contains(key) <==> changed.contains(key.path)
            && exists|i: int|
            0 <= i < count && entry_key(#[trigger] entries[i], key.variant) == key,
    decreases count,
{
    if count > 0 {
        lemma_changed_keys(entries, changed, (count - 1) as nat, key);
        let front = changed_keys(entries, changed, (count - 1) as nat);
        let all = changed_keys(entries, changed, count);
        let last = entries[count - 1];
        let own = file_keys(last);
        if all.contains(key) && !front.contains(key) {
            let i = all.index_of(key);
            if i < front.len() {
                assert(front[i] == key);
            } else {
                assert(own[i - front.len()] == key);
            }
            assert(entry_key(entries[count - 1], key.variant) == key);
        }
        if front.contains(key) {
            let i = front.index_of(key);
            assert(all[i] == key);
        }
        if changed.contains(key.path) && entry_key(last, key.variant) == key {
            let at = match key.variant {
                Variant::Fit => 0int,
                Variant::Original => 1int,
                Variant::Thumb => 2int,
            };
            assert(own[at] == key);
            assert(all[front.len() + at] == key);
        }
    }
}

impl GuiView {
    /// Whether a texture is kept.
    pub open spec fn keeps(self, key: TexKeyView) -> bool {
        has_slot(self.cache_for(key.variant).slots, key.slot())
    }

    /// Whether it is known why a texture could not be decoded.
    pub open spec fn knows_failure(self, key: TexKeyView) -> bool {
        map_has(self.failed, key)
    }
}

/// A refresh forgets what was decoded of the listed files that changed or disappeared,
/// and nothing else that was decoded.
pub proof fn law_refresh_keeps_unchanged_textures(
    view: GuiView,
    entries: Seq<EntryView>,
    changed: Seq<PathNames>,
    key: TexKeyView,
)
    requires
        view.previews.sound(),
        view.thumbs.sound(),
    ensures
        !changed.contains(key.path) ==> view.live_refreshed(entries, changed).keeps(key)
            == view.keeps(key),
        (changed.contains(key.path) && exists|i: int|
            0 <= i < view.state.entries.len() && entry_key(
                #[trigger] view.state.entries[i],
                key.variant,
            ) == key) ==> !view.live_refreshed(entries, changed).keeps(key),
{
    let keys = changed_keys(view.state.entries, changed, view.state.entries.len());
    lemma_dropped_all(view, keys, key);
    lemma_changed_keys(view.state.entries, changed, view.state.entries.len(), key);
    let kept = view.textures_dropped(keys);
    assert(view.live_refreshed(entries, changed).keeps(key) == kept.keeps(key)) by {
        reveal(GuiView::decodes_refused);
        reveal(GuiView::arrivals_noted);
        reveal(GuiView::with_state);
        reveal(GuiView::video_stopped);
    }
}

/// What a decoding begun before a refresh brings is refused after it.
pub proof fn law_refresh_refuses_earlier_decodes(
    view: GuiView,
    entries: Seq<EntryView>,
    changed: Seq<PathNames>,
    decoded: DecodedView,
)
    requires
        decoded.generation == view.scan_generation,
    ensures
        view.live_refreshed(entries, changed).after_decode(decoded) == view.live_refreshed(
            entries,
            changed,
        ),
{
    let keys = changed_keys(view.state.entries, changed, view.state.entries.len());
    lemma_dropped_keeps(view, keys);
    reveal(GuiView::decodes_refused);
    reveal(GuiView::arrivals_noted);
    reveal(GuiView::with_state);
    reveal(GuiView::video_stopped);
}

/// A refresh keeps the window sound; it stops the active video only where its file
/// changed or is not the current entry any more.
pub proof fn law_refresh_keeps_window_sound(
    view: GuiView,
    entries: Seq<EntryView>,
    changed: Seq<PathNames>,
)
    requires
        view.sound(),
        entries.len() <= usize::MAX,
    ensures
        view.live_refreshed(entries, changed).sound(),
        view.live_refreshed(entries, changed).active_video == if view.video_goes_on(
            view.state.refreshed(entries, changed),
            changed,
        ) {
            view.active_video
        } else {
            None
        },
{
    let keys = changed_keys(view.state.entries, changed, view.state.entries.len());
    let state = view.state.refreshed(entries, changed);
    lemma_dropped_keeps(view, keys);
    lemma_refused_keeps(view.textures_dropped(keys));
    let refused = view.textures_dropped(keys).decodes_refused();
    lemma_arrivals_keep(refused, entries);
    lemma_with_state(refused.arrivals_noted(entries), state);
    law_refresh_unmarks_changed_files(view.state, entries, changed, Seq::empty());
    reveal(GuiView::video_stopped);
}

/// Refreshes wait exactly while the preview shows a video that is paused before its end.
pub proof fn law_paused_previews_hold_refreshes_back(view: GuiView)
    ensures
        view.refresh_waits() <==> view.state.mode == ViewMode::Preview
            && view.state.current_index < view.state.entries.len()
            && view.state.entries[view.state.current_index as int].media_kind is Video && (
        view.active_video matches Some(video) && video.handle.path
            == view.state.entries[view.state.current_index as int].path
            && video.handle.controls.paused && !video.ended),
{
}

/// A refresh lists what it found, remembers the listed files that were not listed before as
/// newcomers, and lets the active video go on where its file did not change and stays
/// selected.
pub proof fn law_refresh_shows_what_was_found(
    view: GuiView,
    entries: Seq<EntryView>,
    changed: Seq<PathNames>,
    path: PathNames,
)
    requires
        view.sound(),
        entries.len() <= usize::MAX,
    ensures
        ({
            let after = view.live_refreshed(entries, changed);
            &&& after.state.entries == entries
            &&& after.scan_generation != view.scan_generation
            &&& after.inflight.len() == 0
            &&& after.arrived.contains(path) <==> view.arrived.contains(path) || (exists|i: int|
                0 <= i < entries.len() && (#[trigger] entries[i]).path == path) && !exists|
                i: int,
            |
                0 <= i < view.state.entries.len() && (#[trigger] view.state.entries[i]).path
                    == path
            &&& view.active_video matches Some(video) ==> (changed.contains(video.handle.path)
                ==> after.active_video is None)
            &&& view.active_video matches Some(video) ==> (!changed.contains(video.handle.path)
                && lists_path(entries, video.handle.path) ==> after.active_video
                == view.active_video)
        }),
{
    let keys = changed_keys(view.state.entries, changed, view.state.entries.len());
    let state = view.state.refreshed(entries, changed);
    lemma_dropped_keeps(view, keys);
    let dropped = view.textures_dropped(keys);
    lemma_refused_keeps(dropped);
    let refused = dropped.decodes_refused();
    lemma_arrivals_keep(refused, entries);
    let noted = refused.arrivals_noted(entries);
    lemma_with_state(noted, state);
    law_refresh_keeps_window_sound(view, entries, changed);
    law_refresh_unmarks_changed_files(view.state, entries, changed, path);
    let after = view.live_refreshed(entries, changed);
    assert(refused.inflight.len() == 0 && refused.scan_generation == number_after(
        dropped.scan_generation,
    ) && refused.arrived == dropped.arrived && refused.state == dropped.state) by {
        reveal(GuiView::decodes_refused);
    }
    assert(dropped.scan_generation == view.scan_generation && dropped.arrived == view.arrived
        && dropped.state == view.state) by {
        lemma_dropped_rest(view, keys);
    }
    assert(noted.arrived == arrivals(view.state.entries, entries, view.arrived, entries.len())
        && noted.inflight == refused.inflight && noted.scan_generation
        == refused.scan_generation) by {
        reveal(GuiView::arrivals_noted);
    }
    assert(after.arrived == noted.arrived && after.inflight == noted.inflight
        && after.scan_generation == noted.scan_generation && after.state == state) by {
        reveal(GuiView::with_state);
        reveal(GuiView::video_stopped);
    }
    lemma_arrivals(view.state.entries, entries, view.arrived, entries.len(), path);
    if let Some(video) = view.active_video {
        assert(view.state.current_path() == Some(video.handle.path));
    }
}

proof fn lemma_dropped_rest(view: GuiView, keys: Seq<TexKeyView>)
    ensures
        view.textures_dropped(keys).scan_generation == view.scan_generation,
        view.textures_dropped(keys).arrived == view.arrived,
        view.textures_dropped(keys).state == view.state,
    decreases keys.len(),
{
    if keys.len() > 0 {
        lemma_dropped_rest(view, keys.drop_last());
        reveal(GuiView::texture_dropped);
    }
}

proof fn lemma_arrivals(
    known: Seq<EntryView>,
    entries: Seq<EntryView>,
    arrived: Seq<PathNames>,
    count: nat,
    path: PathNames,
)
    requires
        count <= entries.len(),
    ensures
        arrivals(known, entries, arrived, count).contains(path) <==> arrived.contains(path) || (
        exists|i: int| 0 <= i < count && (#[trigger] entries[i]).path == path) && !lists_path(
            known,
            path,
        ),
    decreases count,
{
    if count > 0 {
        lemma_arrivals(known, entries, arrived, (count - 1) as nat, path);
        let front = arrivals(known, entries, arrived, (count - 1) as nat);
        crate::assoc::law_set_membership(front, entries[count - 1].path, path);
        assert(entries[count - 1].path == entries[count - 1].path);
        if exists|i: int| 0 <= i < count && (#[trigger] entries[i]).path == path {
            let i = choose|i: int| 0 <= i < count && (#[trigger] entries[i]).path == path;
            if i < count - 1 {
                assert(entries[i].path == path);
            }
        }
    }
}

/// A file that changed or disappeared is tried again where it could not be decoded before;
/// of the other files it stays known why they could not be.
pub proof fn law_changed_files_are_tried_again(
    view: GuiView,
    entries: Seq<EntryView>,
    changed: Seq<PathNames>,
    key: TexKeyView,
)
    requires
        view.previews.sound(),
        view.thumbs.sound(),
    ensures
        !changed.contains(key.path) ==> map_has(
            view.live_refreshed(entries, changed).failed,
            key,
        ) == map_has(view.failed, key),
        (changed.contains(key.path) && exists|i: int|
            0 <= i < view.state.entries.len() && (#[trigger] view.state.entries[i]).path
                == key.path && view.state.entries[i].media_kind == key.media_kind) ==> !map_has(
            view.live_refreshed(entries, changed).failed,
            key,
        ),
{
    let keys = changed_keys(view.state.entries, changed, view.state.entries.len());
    lemma_dropped_all(view, keys, key);
    lemma_changed_keys(view.state.entries, changed, view.state.entries.len(), key);
    let kept = view.textures_dropped(keys);
    assert(view.live_refreshed(entries, changed).failed == kept.failed) by {
        reveal(GuiView::decodes_refused);
        reveal(GuiView::arrivals_noted);
        reveal(GuiView::with_state);
        reveal(GuiView::video_stopped);
    }
    assert(kept.knows_failure(key) == map_has(kept.failed, key));
    assert(view.knows_failure(key) == map_has(view.failed, key));
    if exists|i: int|
        0 <= i < view.state.entries.len() && (#[trigger] view.state.entries[i]).path == key.path
            && view.state.entries[i].media_kind == key.media_kind {
        let i = choose|i: int|
            0 <= i < view.state.entries.len() && (#[trigger] view.state.entries[i]).path
                == key.path && view.state.entries[i].media_kind == key.media_kind;
        assert(entry_key(view.state.entries[i], key.variant) == key);
    }
}

} // verus!
