//! The preview on the screen, and what is rendered ahead for it.

use vstd::prelude::*;
use vstd::string::StringExecFns;

use crate::numbers::{max_usize, most};
use crate::state::{
    entries_of, AppState, EntryView, MediaEntry, PreviewPrefetchMarker, StateView, ZoomMode,
};
use crate::thumbnail::{
    preview_key, some_cells, PreviewJob, PreviewKeyView, ServiceView, ThumbnailService,
};

verus! {

/// The indices at a distance before and behind one, as far as there are such.
pub open spec fn indices_at(current: int, len: int, distance: int) -> Seq<usize> {
    (if current >= distance {
        seq![(current - distance) as usize]
    } else {
        Seq::empty()
    }) + (if current + distance < len {
        seq![(current + distance) as usize]
    } else {
        Seq::empty()
    })
}

/// The indices of the entries around one that are rendered ahead: the nearest
/// first, at each distance the one before.
pub open spec fn neighbors(current: int, len: int) -> Seq<usize> {
    indices_at(current, len, 1) + indices_at(current, len, 2)
}

/// The indices of the entries around one that are rendered ahead.
pub fn neighbor_indices(current: usize, len: usize) -> (indices: Vec<usize>)
    ensures
        indices@ == neighbors(current as int, len as int),
{
    let mut indices: Vec<usize> = Vec::new();
    if current >= 1 {
        indices.push(current - 1);
    }
    if current < len && 1 < len - current {
        indices.push(current + 1);
    }
    if current >= 2 {
        indices.push(current - 2);
    }
    if current < len && 2 < len - current {
        indices.push(current + 2);
    }
    assert(indices@ =~= neighbors(current as int, len as int));
    indices
}

/// The bytes of the files of the first `count` entries.
pub open spec fn file_bytes(entries: Seq<EntryView>, count: nat) -> int
    decreases count,
{
    if count == 0 {
        0
    } else {
        file_bytes(entries, (count - 1) as nat) + entries[count - 1].file_len
    }
}

/// Whether the previews of all entries are rendered ahead: those of a few, or those
/// of files that are within a budget of bytes together.
pub open spec fn eager(entries: Seq<EntryView>, budget_bytes: usize) -> bool {
    entries.len() > 0 && (entries.len() <= 16 || file_bytes(entries, entries.len())
        <= budget_bytes)
}

/// Whether the previews of all entries are rendered ahead.
pub fn should_eager_prefetch_previews(entries: &Vec<MediaEntry>, budget_bytes: usize) -> (yes: bool)
    ensures
        yes == eager(entries_of(entries@), budget_bytes),
{
    if entries.len() == 0 {
        return false;
    }
    if entries.len() <= 16 {
        return true;
    }
    let ghost all = entries_of(entries@);
    let mut total: u128 = 0;
    let mut index: usize = 0;
    while index < entries.len()
        invariant
            all == entries_of(entries@),
            index <= all.len(),
            total == file_bytes(all, index as nat),
            0 <= total <= index * 0xffff_ffff_ffff_ffff,
        decreases all.len() - index,
    {
        assert(all[index as int].file_len == entries@[index as int].file_len);
        assert((index + 1) * 0xffff_ffff_ffff_ffff == index * 0xffff_ffff_ffff_ffff
            + 0xffff_ffff_ffff_ffff);
        assert((index + 1) * 0xffff_ffff_ffff_ffff <= u128::MAX) by {
            assert(index + 1 <= 0xffff_ffff_ffff_ffff);
        }
        total = total + entries[index].file_len as u128;
        index += 1;
    }
    total <= budget_bytes as u128
}

/// What previews are asked for ahead, with the free places for jobs.
pub struct AheadView {
    pub service: ServiceView,
    pub room: int,
    /// The jobs: what is rendered, and the orientation that is known of it.
    pub jobs: Seq<(PreviewKeyView, Option<u16>)>,
}

/// Where previews are shown.
pub struct ShownView {
    pub width: u16,
    pub height: u16,
    pub zoom: ZoomMode,
}

impl AheadView {
    /// After the preview of one more entry was asked for.
    pub open spec fn asked(self, entry: EntryView, shown: ShownView) -> AheadView {
        let key = preview_key(
            entry,
            some_cells(shown.width),
            some_cells(shown.height),
            shown.zoom,
            self.service.backend_id,
        );
        if self.service.asks_preview(key, self.room > 0) {
            AheadView {
                service: self.service.preview_asked(key, self.room > 0),
                room: self.room - 1,
                jobs: self.jobs.push((key, entry.exif_orientation)),
            }
        } else {
            self
        }
    }

    /// After the previews of the first `count` of some entries were asked for.
    pub open spec fn asked_all(
        self,
        entries: Seq<EntryView>,
        indices: Seq<usize>,
        shown: ShownView,
        count: nat,
    ) -> AheadView
        decreases count,
    {
        if count == 0 {
            self
        } else {
            let front = self.asked_all(entries, indices, shown, (count - 1) as nat);
            if indices[count - 1] < entries.len() {
                front.asked(entries[indices[count - 1] as int], shown)
            } else {
                front
            }
        }
    }
}

/// The indices below `count` except one.
pub open spec fn others(current: usize, count: nat) -> Seq<usize>
    decreases count,
{
    if count == 0 {
        Seq::empty()
    } else {
        let front = others(current, (count - 1) as nat);
        if count - 1 == current {
            front
        } else {
            front.push((count - 1) as usize)
        }
    }
}

/// What a round of rendering everything ahead is remembered by.
pub open spec fn round_of(state: StateView, width: u16, height: u16) -> PreviewPrefetchMarker {
    PreviewPrefetchMarker {
        generation: state.thumbnail_generation,
        width_cells: some_cells(width),
        height_cells: some_cells(height),
        zoom_mode: state.zoom_mode,
        entry_count: state.entries.len() as usize,
    }
}

fn other_indices(current: usize, count: usize) -> (indices: Vec<usize>)
    ensures
        indices@ == others(current, count as nat),
{
    let mut indices: Vec<usize> = Vec::new();
    let mut index: usize = 0;
    while index < count
        invariant
            index <= count,
            indices@ == others(current, index as nat),
        decreases count - index,
    {
        if index != current {
            indices.push(index);
        }
        index += 1;
    }
    indices
}

/// The keys and orientations of a list of jobs.
pub open spec fn jobs_of(jobs: Seq<PreviewJob>) -> Seq<(PreviewKeyView, Option<u16>)> {
    Seq::new(jobs.len(), |i: int| (jobs[i].key@, jobs[i].orientation))
}

/// Asks for the previews of some entries; returns the jobs.
fn ask_ahead(
    entries: &Vec<MediaEntry>,
    indices: &Vec<usize>,
    width: u16,
    height: u16,
    zoom: ZoomMode,
    generation: u64,
    thumbnails: &mut ThumbnailService,
    room: usize,
) -> (jobs: Vec<PreviewJob>)
    ensures
        ({
            let start = AheadView {
                service: old(thumbnails)@,
                room: room as int,
                jobs: Seq::empty(),
            };
            let done = start.asked_all(
                entries_of(entries@),
                indices@,
                ShownView { width, height, zoom },
                indices@.len(),
            );
            &&& final(thumbnails)@ == done.service
            &&& jobs_of(jobs@) == done.jobs
            &&& forall|i: int|
                0 <= i < jobs@.len() ==> (#[trigger] jobs@[i]).generation == generation
        }),
{
    let ghost all = entries_of(entries@);
    let ghost shown = ShownView { width, height, zoom };
    let ghost start = AheadView {
        service: thumbnails@,
        room: room as int,
        jobs: Seq::empty(),
    };
    let mut left: usize = room;
    let mut jobs: Vec<PreviewJob> = Vec::new();
    let mut at: usize = 0;
    assert(jobs_of(jobs@) =~= Seq::empty());
    while at < indices.len()
        invariant
            all == entries_of(entries@),
            shown == (ShownView { width, height, zoom }),
            at <= indices@.len(),
            (AheadView { service: thumbnails@, room: left as int, jobs: jobs_of(jobs@) })
                == start.asked_all(all, indices@, shown, at as nat),
            forall|i: int|
                0 <= i < jobs@.len() ==> (#[trigger] jobs@[i]).generation == generation,
        decreases indices@.len() - at,
    {
        let index: usize = indices[at];
        if index < entries.len() {
            assert(all[index as int] == entries@[index as int]@);
            let ghost before = jobs_of(jobs@);
            match thumbnails.prefetch_preview(
                &entries[index],
                width,
                height,
                zoom,
                generation,
                left > 0,
            ) {
                Some(job) => {
                    jobs.push(job);
                    left -= 1;
                    assert(jobs_of(jobs@) =~= before.push((job.key@, job.orientation)));
                },
                None => {},
            }
        }
        at += 1;
    }
    jobs
}

/// Asks for the previews that are rendered ahead of the current entry's: those of
/// all entries where they are few or small, once for each layout and list; else
/// those around the current one. Returns the jobs, no more than there are free
/// places for.
pub fn prefetch_after_current(
    state: &mut AppState,
    width: u16,
    height: u16,
    thumbnails: &mut ThumbnailService,
    room: usize,
) -> (jobs: Vec<PreviewJob>)
    ensures
        ({
            let before = old(state)@;
            let shown = ShownView { width, height, zoom: before.zoom_mode };
            let all = eager(before.entries, old(thumbnails)@.previews.budget_bytes);
            let round = round_of(before, width, height);
            let grown = ServiceView {
                previews: old(thumbnails)@.previews.grown(most(before.entries.len() as int, 5)),
                ..old(thumbnails)@
            };
            let start = AheadView {
                service: if all {
                    grown
                } else {
                    old(thumbnails)@
                },
                room: room as int,
                jobs: Seq::empty(),
            };
            let indices = if all {
                others(before.current_index, before.entries.len())
            } else {
                neighbors(before.current_index as int, before.entries.len() as int)
            };
            let done = start.asked_all(before.entries, indices, shown, indices.len());
            if before.entries.len() == 0 || (all && before.eager_preview_prefetch == Some(
                round,
            )) {
                &&& final(state)@ == before
                &&& final(thumbnails)@ == old(thumbnails)@
                &&& jobs@.len() == 0
            } else {
                &&& final(state)@ == if all {
                    StateView { eager_preview_prefetch: Some(round), ..before }
                } else {
                    before
                }
                &&& final(thumbnails)@ == done.service
                &&& jobs_of(jobs@) == done.jobs
                &&& forall|i: int|
                    0 <= i < jobs@.len() ==> (#[trigger] jobs@[i]).generation
                        == before.thumbnail_generation
            }
        }),
{
    if state.entries.len() == 0 {
        return Vec::new();
    }
    let zoom = state.zoom_mode;
    let generation: u64 = state.thumbnail_generation;
    if should_eager_prefetch_previews(&state.entries, thumbnails.preview_budget_bytes()) {
        let marker = PreviewPrefetchMarker {
            generation,
            width_cells: if width == 0 {
                1
            } else {
                width
            },
            height_cells: if height == 0 {
                1
            } else {
                height
            },
            zoom_mode: zoom,
            entry_count: state.entries.len(),
        };
        assert(marker == round_of(state@, width, height));
        let repeated = match state.eager_preview_prefetch {
            Some(last) => last == marker,
            None => false,
        };
        if repeated {
            return Vec::new();
        }
        thumbnails.ensure_preview_capacity(max_usize(state.entries.len(), 5));
        let indices = other_indices(state.current_index, state.entries.len());
        let jobs = ask_ahead(
            &state.entries,
            &indices,
            width,
            height,
            zoom,
            generation,
            thumbnails,
            room,
        );
        state.eager_preview_prefetch = Some(marker);
        return jobs;
    }
    let indices = neighbor_indices(state.current_index, state.entries.len());
    ask_ahead(&state.entries, &indices, width, height, zoom, generation, thumbnails, room)
}

/// The label of the preview.
pub open spec fn label_text(name: Seq<char>, zoom: ZoomMode) -> Seq<char> {
    " "@ + name + " | "@ + (match zoom {
        ZoomMode::Fit => "fit"@,
        ZoomMode::OriginalPixels => "original"@,
    }) + " "@
}

/// The label of the preview.
pub fn preview_label(name: &str, zoom: ZoomMode) -> (label: String)
    ensures
        label@ == label_text(name@, zoom),
{
    let mut label = " ".to_owned();
    label.append(name);
    label.append(" | ");
    label.append(
        match zoom {
            ZoomMode::Fit => "fit",
            ZoomMode::OriginalPixels => "original",
        },
    );
    label.append(" ");
    label
}

/// The previews next to the current one, and those next but one, are rendered ahead, as far
/// as there are such; the nearer ones come first, and the one before comes before the one
/// behind.
pub proof fn law_neighbours_come_nearest_first(current: int, len: int)
    requires
        0 <= current < len <= usize::MAX,
    ensures
        forall|i: usize| #[trigger]
            neighbors(current, len).contains(i) <==> i < len && i != current && -2 <= i - current
                <= 2,
        2 <= current && current + 2 < len ==> neighbors(current, len) == seq![
            (current - 1) as usize,
            (current + 1) as usize,
            (current - 2) as usize,
            (current + 2) as usize,
        ],
        len == 1 ==> neighbors(current, len).len() == 0,
{
    let all = neighbors(current, len);
    let near = indices_at(current, len, 1);
    let far = indices_at(current, len, 2);
    assert(near.len() <= 2 && far.len() <= 2);
    assert forall|i: usize| #[trigger] all.contains(i) <==> i < len && i != current && -2 <= i
        - current <= 2 by {
        if i < len && i != current && -2 <= i - current <= 2 {
            let side = if i - current == -1 || i - current == 1 {
                near
            } else {
                far
            };
            let at: int = if i < current {
                0
            } else {
                side.len() - 1
            };
            assert(side[at] == i);
            if side == near {
                assert(all[at] == i);
            } else {
                assert(all[near.len() + at] == i);
            }
        }
        if all.contains(i) {
            let at = all.index_of(i);
            if at < near.len() {
                assert(near[at] == i);
            } else {
                assert(far[at - near.len()] == i);
            }
        }
    }
    if 2 <= current && current + 2 < len {
        assert(all =~= seq![
            (current - 1) as usize,
            (current + 1) as usize,
            (current - 2) as usize,
            (current + 2) as usize,
        ]);
    }
}

/// Where all previews are rendered ahead, every entry but the current one is among them.
pub proof fn law_others_are_all_but_the_current(current: usize, count: nat, i: usize)
    requires
        count <= usize::MAX,
    ensures
        others(current, count).contains(i) <==> i < count && i != current,
    decreases count,
{
    if count > 0 {
        let front = others(current, (count - 1) as nat);
        let all = others(current, count);
        law_others_are_all_but_the_current(current, (count - 1) as nat, i);
        if front.contains(i) {
            assert(all[front.index_of(i)] == i);
        }
        if all.contains(i) && all.index_of(i) < front.len() {
            assert(front[all.index_of(i)] == i);
        }
        if i == count - 1 && i != current {
            assert(all[front.len() as int] == i);
        }
    }
}

/// A few entries are all rendered ahead whatever their size, and more than sixteen only
/// where their files are within the budget together.
pub proof fn law_few_or_small_files_are_rendered_ahead(entries: Seq<EntryView>, budget: usize)
    ensures
        !eager(Seq::empty(), budget),
        1 <= entries.len() <= 16 ==> eager(entries, budget),
        entries.len() > 16 && (forall|i: int|
            0 <= i < entries.len() ==> (#[trigger] entries[i]).file_len * entries.len()
                <= budget) ==> eager(entries, budget),
        entries.len() > 16 && (exists|i: int|
            0 <= i < entries.len() && (#[trigger] entries[i]).file_len > budget) ==> !eager(
            entries,
            budget,
        ),
{
    let len = entries.len() as int;
    if len > 16 && (forall|i: int|
        0 <= i < len ==> (#[trigger] entries[i]).file_len * entries.len() <= budget) {
        lemma_bytes_below(entries, entries.len(), budget as int);
        let total = file_bytes(entries, entries.len());
        assert(total <= budget) by (nonlinear_arith)
            requires
                total * len <= len * budget,
                len > 16,
        ;
    }
    if exists|i: int| 0 <= i < len && (#[trigger] entries[i]).file_len > budget {
        let i = choose|i: int| 0 <= i < len && (#[trigger] entries[i]).file_len > budget;
        lemma_bytes_above(entries, entries.len(), i);
    }
}

proof fn lemma_bytes_below(entries: Seq<EntryView>, count: nat, budget: int)
    requires
        count <= entries.len(),
        forall|i: int|
            0 <= i < entries.len() ==> (#[trigger] entries[i]).file_len * entries.len() <= budget,
    ensures
        file_bytes(entries, count) * entries.len() <= count * budget,
    decreases count,
{
    if count > 0 {
        let before = (count - 1) as nat;
        lemma_bytes_below(entries, before, budget);
        let front = file_bytes(entries, before);
        let last = entries[count - 1].file_len as int;
        let len = entries.len() as int;
        assert(last * len <= budget);
        assert((front + last) * len <= count * budget) by (nonlinear_arith)
            requires
                front * len <= before * budget,
                last * len <= budget,
                count == before + 1,
        ;
    } else {
        let len = entries.len() as int;
        assert(0 * len <= 0 * budget) by (nonlinear_arith);
    }
}

proof fn lemma_bytes_above(entries: Seq<EntryView>, count: nat, i: int)
    requires
        0 <= i < count <= entries.len(),
    ensures
        file_bytes(entries, count) >= entries[i].file_len,
    decreases count,
{
    lemma_bytes_count_up(entries, (count - 1) as nat);
    if i < count - 1 {
        lemma_bytes_above(entries, (count - 1) as nat, i);
    }
}

proof fn lemma_bytes_count_up(entries: Seq<EntryView>, count: nat)
    requires
        count <= entries.len(),
    ensures
        file_bytes(entries, count) >= 0,
    decreases count,
{
    if count > 0 {
        lemma_bytes_count_up(entries, (count - 1) as nat);
    }
}

/// Each job takes one of the free places, so that no more are made than there are.
pub proof fn law_jobs_take_free_places(
    start: AheadView,
    entries: Seq<EntryView>,
    indices: Seq<usize>,
    shown: ShownView,
    count: nat,
)
    requires
        start.room >= 0,
    ensures
        ({
            let done = start.asked_all(entries, indices, shown, count);
            &&& done.room >= 0
            &&& done.jobs.len() - start.jobs.len() == start.room - done.room
            &&& done.jobs.len() - start.jobs.len() <= start.room
        }),
    decreases count,
{
    if count > 0 {
        law_jobs_take_free_places(start, entries, indices, shown, (count - 1) as nat);
    }
}

} // verus!
