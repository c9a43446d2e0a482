//! What the window draws: the preview, the grid and its cells, and texts.

use vstd::prelude::*;
use vstd::string::StringExecFns;

use crate::assoc::{map_get, map_with};
use crate::numbers::{max_usize, most};
use crate::slots::{
    has_slot, held_by, law_cache_stays_sound, law_trimmed_cache_is_within_budget, slot_at,
    slot_index, SlotView,
};
use crate::state::{EntryView, MediaKind, MediaMode, ViewMode, ZoomMode};
use crate::text::{decimal, encloses, tells, to_decimal};

use super::playback::{badge_shown, should_show_media_type_badge};
use super::textures::{TexKey, TexKeyView, Variant};
use super::window::{GuiApp, GuiView, PREVIEW_BYTES};
use super::work::{entry_key, row_count, rows_for, DecodedView};

verus! {

/// What the preview shows.
#[derive(Debug, PartialEq, Eq)]
pub enum PreviewPlan {
    /// There is no entry.
    Empty,
    /// The last frame of the active video.
    VideoFrame,
    /// A decoded file.
    Texture(u64),
    /// Why the file could not be decoded.
    Failed(String),
    /// The file is being decoded.
    Loading,
}

/// The contents of a [`PreviewPlan`].
pub enum PreviewPlanView {
    Empty,
    VideoFrame,
    Texture(u64),
    Failed(Seq<char>),
    Loading,
}

impl View for PreviewPlan {
    type V = PreviewPlanView;

    open spec fn view(&self) -> PreviewPlanView {
        match self {
            PreviewPlan::Empty => PreviewPlanView::Empty,
            PreviewPlan::VideoFrame => PreviewPlanView::VideoFrame,
            PreviewPlan::Texture(texture) => PreviewPlanView::Texture(*texture),
            PreviewPlan::Failed(error) => PreviewPlanView::Failed(error@),
            PreviewPlan::Loading => PreviewPlanView::Loading,
        }
    }
}

/// What a grid cell shows of its file.
#[derive(Debug, Clone, Copy, PartialEq, Eq, Structural)]
pub enum CellPicture {
    VideoFrame,
    Texture(u64),
    Nothing,
}

/// How a grid cell is framed.
#[derive(Debug, Clone, Copy, PartialEq, Eq, Structural)]
pub enum CellBorder {
    Current,
    Queued,
    Plain,
}

/// What a grid cell shows.
#[derive(Debug, Clone, Copy, PartialEq, Eq, Structural)]
pub struct CellPlan {
    pub picture: CellPicture,
    pub border: CellBorder,
    pub queued: bool,
    /// The kind of media that the cell's badge shows, where it has one.
    pub badge: Option<MediaKind>,
}

impl GuiView {
    /// Whether the active video has a frame to show for a file.
    pub open spec fn shows_frame(self, path: crate::path::PathNames) -> bool {
        match self.active_for(path) {
            Some(video) => video.has_texture,
            None => false,
        }
    }

    /// What the preview shows.
    pub open spec fn preview_plan(self) -> PreviewPlanView {
        match self.state.current_entry() {
            None => PreviewPlanView::Empty,
            Some(entry) => {
                let key = entry_key(entry, self.preview_variant());
                if self.shows_frame(entry.path) {
                    PreviewPlanView::VideoFrame
                } else {
                    match held_by(self.previews.slots, key.slot()) {
                        Some(texture) => PreviewPlanView::Texture(texture.0),
                        None => match map_get(self.failed, key) {
                            Some(error) => PreviewPlanView::Failed(error),
                            None => PreviewPlanView::Loading,
                        },
                    }
                }
            },
        }
    }

    /// The window after the preview was drawn: a texture that was looked up has
    /// been used.
    pub open spec fn preview_drawn(self) -> GuiView {
        match self.state.current_entry() {
            None => self,
            Some(entry) => if self.shows_frame(entry.path) {
                self
            } else {
                GuiView {
                    previews: self.previews.used(
                        entry_key(entry, self.preview_variant()).slot(),
                    ),
                    ..self
                }
            },
        }
    }

    /// What a cell shows of its file.
    pub open spec fn cell_picture(self, key: TexKeyView) -> CellPicture {
        if self.shows_frame(key.path) {
            CellPicture::VideoFrame
        } else {
            match held_by(self.thumbs.slots, key.slot()) {
                Some(texture) => CellPicture::Texture(texture.0),
                None => CellPicture::Nothing,
            }
        }
    }

    /// The window after a cell's picture was drawn: a thumbnail that was looked
    /// up has been used.
    pub open spec fn picture_drawn(self, key: TexKeyView) -> GuiView {
        if self.shows_frame(key.path) {
            self
        } else {
            GuiView { thumbs: self.thumbs.used(key.slot()), ..self }
        }
    }

    /// What the cell of an entry shows.
    pub open spec fn cell_plan(self, index: int) -> CellPlan {
        let entry = self.state.entries[index];
        let queued = self.state.delete_queue.contains(entry.path);
        let playing = match self.active_for(entry.path) {
            Some(video) => video.playing(),
            None => false,
        };
        CellPlan {
            picture: self.cell_picture(entry_key(entry, Variant::Thumb)),
            border: if index == self.state.current_index {
                CellBorder::Current
            } else if queued {
                CellBorder::Queued
            } else {
                CellBorder::Plain
            },
            queued,
            badge: if badge_shown(
                self.media_type_badges_visible,
                self.state.media_mode,
                entry.media_kind,
                playing,
            ) {
                Some(entry.media_kind)
            } else {
                None
            },
        }
    }

    /// The window after the cell of an entry was drawn.
    pub open spec fn cell_drawn(self, index: int) -> GuiView {
        self.picture_drawn(entry_key(self.state.entries[index], Variant::Thumb))
    }

    /// The window after a cell was clicked; a double click opens the preview.
    pub open spec fn clicked(self, index: int, double: bool) -> GuiView {
        let chosen = self.selected(index);
        if double {
            chosen.selected(index).previewing()
        } else {
            chosen
        }
    }

    /// The row of the current entry's cell, where the grid has to scroll to it.
    pub open spec fn scroll_row(self) -> Option<int> {
        let cells = self.cell_indices();
        let current = self.state.current_index as int;
        if self.scroll_to_current && cells.contains(current) {
            let row = cells.index_of(current) / most(self.grid_cols as int, 1);
            if self.last_visible_rows.0 <= row < self.last_visible_rows.1 {
                None
            } else {
                Some(row)
            }
        } else {
            None
        }
    }

    /// Whether the window has to be drawn again soon.
    pub open spec fn wants_repaint(self, now: u128) -> bool {
        self.inflight.len() > 0 || now < self.video_progress_overlay_visible_until
            || self.active_playing()
    }

    /// The name of the view.
    pub open spec fn mode_name(self) -> Seq<char> {
        match self.state.mode {
            ViewMode::Preview => "preview"@,
            ViewMode::Grid => "grid"@,
            ViewMode::DeleteQueueGrid => "delete-queue"@,
        }
    }

    /// The name of the zoom.
    pub open spec fn zoom_name(self) -> Seq<char> {
        match self.state.zoom_mode {
            ZoomMode::Fit => "fit"@,
            ZoomMode::OriginalPixels => "original"@,
        }
    }

    /// The number of the current entry, and how many there are.
    pub open spec fn position_text(self) -> Seq<char> {
        if self.state.entries.len() == 0 {
            "0 / 0"@
        } else {
            decimal((self.state.current_index + 1) as nat) + " / "@ + decimal(
                self.state.entries.len(),
            )
        }
    }

    /// The line at the bottom of the window.
    pub open spec fn status_line(self) -> Seq<char> {
        self.mode_name() + "  |  "@ + self.position_text() + "  |  "@ + self.zoom_name()
            + "  |  queued: "@ + decimal(self.state.delete_queue.len()) + "  |  sort: "@
            + self.state.sort_mode.name() + "  |  audio: "@ + (if self.video_muted {
            "muted"@
        } else {
            "on"@
        }) + "  |  auto-next: "@ + (if self.auto_next {
            "on"@
        } else {
            "off"@
        }) + "  |  "@ + self.status
    }
}

/// The width and height of an entry, as the info overlay shows them.
pub open spec fn dimensions_text(dimensions: Option<(u32, u32)>) -> Seq<char> {
    match dimensions {
        Some((width, height)) => decimal(width as nat) + "×"@ + decimal(height as nat),
        None => "—"@,
    }
}

/// The info overlay of an entry.
pub open spec fn info_of(entry: EntryView, path: Seq<char>) -> Seq<char> {
    entry.display_name + "\npath: "@ + path + "\nsize: "@ + decimal(entry.file_len as nat)
        + " bytes\ndimensions: "@ + dimensions_text(entry.dimensions) + "\ntype: "@
        + entry.media_kind.name()
}

/// The question whether to delete the marked files.
pub open spec fn confirm_question(count: nat) -> Seq<char> {
    "Delete "@ + decimal(count) + " queued file(s)?  [y] yes   [n] no"@
}

fn dimensions_label(dimensions: Option<(u32, u32)>) -> (text: String)
    ensures
        text@ == dimensions_text(dimensions),
{
    match dimensions {
        Some((width, height)) => {
            let mut text = to_decimal(width as u128);
            text.append("×");
            text.append(to_decimal(height as u128).as_str());
            text
        },
        None => "—".to_owned(),
    }
}

impl GuiApp {
    /// What the preview shows.
    #[verifier::rlimit(40)]
    pub fn plan_preview(&mut self) -> (plan: PreviewPlan)
        ensures
            plan@ == old(self)@.preview_plan(),
            final(self)@ == old(self)@.preview_drawn(),
    {
        let variant = self.preview_variant();
        let key = match self.state.current_entry() {
            None => {
                return PreviewPlan::Empty;
            },
            Some(entry) => TexKey {
                path: entry.path.clone(),
                variant,
                media_kind: entry.media_kind,
            },
        };
        let shows_frame = match self.active_video_for(&key.path) {
            Some(video) => video.has_texture,
            None => false,
        };
        if shows_frame {
            return PreviewPlan::VideoFrame;
        }
        match self.previews.get(&key.slot_key()) {
            Some((texture, _)) => PreviewPlan::Texture(texture),
            None => match self.failed.get(&key) {
                Some(error) => PreviewPlan::Failed(error.clone()),
                None => PreviewPlan::Loading,
            },
        }
    }

    /// What a cell shows of its file.
    fn find_cell_picture(&mut self, key: &TexKey) -> (picture: CellPicture)
        ensures
            picture == old(self)@.cell_picture(key@),
            final(self)@ == old(self)@.picture_drawn(key@),
    {
        let shows_frame = match self.active_video_for(&key.path) {
            Some(video) => video.has_texture,
            None => false,
        };
        if shows_frame {
            return CellPicture::VideoFrame;
        }
        match self.thumbs.get(&key.slot_key()) {
            Some((texture, _)) => CellPicture::Texture(texture),
            None => CellPicture::Nothing,
        }
    }

    /// What the cell of an entry shows.
    pub fn plan_cell(&mut self, index: usize) -> (plan: Option<CellPlan>)
        ensures
            index < old(self)@.state.entries.len() ==> plan == Some(
                old(self)@.cell_plan(index as int),
            ) && final(self)@ == old(self)@.cell_drawn(index as int),
            index >= old(self)@.state.entries.len() ==> plan is None && final(self)@ == old(
                self,
            )@,
    {
        if index >= self.state.entries.len() {
            return None;
        }
        let entry = &self.state.entries[index];
        assert(entry@ == self@.state.entries[index as int]);
        let key = TexKey {
            path: entry.path.clone(),
            variant: Variant::Thumb,
            media_kind: entry.media_kind,
        };
        let queued = self.state.is_queued(&key.path);
        let playing = self.active_video_is_playing_for(&key.path);
        let border = if index == self.state.current_index {
            CellBorder::Current
        } else if queued {
            CellBorder::Queued
        } else {
            CellBorder::Plain
        };
        let badge = if should_show_media_type_badge(
            self.media_type_badges_visible,
            self.state.media_mode,
            &key.media_kind,
            playing,
        ) {
            Some(key.media_kind)
        } else {
            None
        };
        let picture = self.find_cell_picture(&key);
        Some(CellPlan { picture, border, queued, badge })
    }

    /// Selects the entry of a cell that was clicked; a double click opens it.
    pub fn click_cell(&mut self, index: usize, double: bool)
        ensures
            final(self)@ == old(self)@.clicked(index as int, double),
    {
        self.set_current_index(index);
        if double {
            self.set_current_index(index);
            self.open_preview();
        }
    }

    /// Notes how many columns and rows of cells fit into the window; returns how
    /// many rows the whole grid has.
    pub fn lay_out_grid(&mut self, cols: usize, rows: usize) -> (total_rows: usize)
        ensures
            final(self)@ == (GuiView {
                grid_cols: most(cols as int, 1) as usize,
                grid_rows: most(rows as int, 1) as usize,
                ..old(self)@
            }),
            total_rows == rows_for(
                old(self)@.cell_indices().len() as int,
                most(cols as int, 1),
            ),
    {
        let count: usize = self.grid_indices().len();
        self.grid_cols = max_usize(cols, 1);
        self.grid_rows = max_usize(rows, 1);
        row_count(count, self.grid_cols)
    }

    /// The row of the current entry's cell, where the grid has to scroll to it.
    pub fn row_to_scroll_to(&self) -> (row: Option<usize>)
        ensures
            match row {
                Some(row) => self@.scroll_row() == Some(row as int),
                None => self@.scroll_row() is None,
            },
    {
        if !self.scroll_to_current {
            return None;
        }
        let indices = self.grid_indices();
        let ghost cells = self@.cell_indices();
        let mut slot: usize = 0;
        while slot < indices.len()
            invariant
                cells == self@.cell_indices(),
                indices@.len() == cells.len(),
                self.scroll_to_current,
                slot <= cells.len(),
                forall|i: int| 0 <= i < indices@.len() ==> #[trigger] indices@[i] == cells[i],
                forall|i: int| 0 <= i < slot ==> cells[i] != self.state.current_index,
            decreases cells.len() - slot,
        {
            if indices[slot] == self.state.current_index {
                let row: usize = slot / max_usize(self.grid_cols, 1);
                proof {
                    let at = cells.index_of(self.state.current_index as int);
                    assert(cells[slot as int] == self.state.current_index);
                    assert(self.state.entries@.len() == self.state.entries.len());
                    lemma_cells_distinct(self@);
                    assert(at == slot);
                }
                if self.last_visible_rows.0 <= row && row < self.last_visible_rows.1 {
                    return None;
                }
                return Some(row);
            }
            slot += 1;
        }
        assert(!cells.contains(self.state.current_index as int));
        None
    }

    /// Notes which rows are visible: from `first` up to `end`.
    pub fn set_visible_rows(&mut self, first: usize, end: usize)
        ensures
            final(self)@ == (GuiView { last_visible_rows: (first, end), ..old(self)@ }),
    {
        self.last_visible_rows = (first, end);
    }

    /// Ends a frame: the grid has scrolled. Reports whether the window has to be
    /// drawn again soon.
    pub fn finish_frame(&mut self, now: u128) -> (repaint: bool)
        ensures
            repaint == old(self)@.wants_repaint(now),
            final(self)@ == (GuiView { scroll_to_current: false, ..old(self)@ }),
    {
        self.scroll_to_current = false;
        !self.inflight.is_empty() || now < self.video_progress_overlay_visible_until
            || self.active_video_is_playing()
    }

    /// The line at the bottom of the window.
    pub fn status_line(&self) -> (line: String)
        ensures
            line@ == self@.status_line(),
    {
        let mut line = match self.state.mode {
            ViewMode::Preview => "preview".to_owned(),
            ViewMode::Grid => "grid".to_owned(),
            ViewMode::DeleteQueueGrid => "delete-queue".to_owned(),
        };
        line.append("  |  ");
        line.append(self.position_label().as_str());
        line.append("  |  ");
        line.append(
            match self.state.zoom_mode {
                ZoomMode::Fit => "fit",
                ZoomMode::OriginalPixels => "original",
            },
        );
        line.append("  |  queued: ");
        line.append(to_decimal(self.state.queue_count() as u128).as_str());
        line.append("  |  sort: ");
        line.append(self.state.sort_mode.as_str());
        line.append("  |  audio: ");
        line.append(
            if self.video_muted {
                "muted"
            } else {
                "on"
            },
        );
        line.append("  |  auto-next: ");
        line.append(
            if self.auto_next {
                "on"
            } else {
                "off"
            },
        );
        line.append("  |  ");
        line.append(self.status.as_str());
        line
    }

    /// The number of the current entry, and how many there are.
    fn position_label(&self) -> (text: String)
        ensures
            text@ == self@.position_text(),
    {
        if self.state.entries.len() == 0 {
            return "0 / 0".to_owned();
        }
        let mut text = to_decimal(self.state.current_index as u128 + 1);
        text.append(" / ");
        text.append(to_decimal(self.state.entries.len() as u128).as_str());
        text
    }

    /// The info overlay of the current entry, whose path reads `path`.
    pub fn info_text(&self, path: &str) -> (text: Option<String>)
        ensures
            match text {
                Some(text) => self@.state.current_entry() matches Some(entry) && text@
                    == info_of(entry, path@),
                None => self@.state.current_entry() is None,
            },
    {
        match self.state.current_entry() {
            Some(entry) => {
                let mut text = entry.display_name.clone();
                text.append("\npath: ");
                text.append(path);
                text.append("\nsize: ");
                text.append(to_decimal(entry.file_len as u128).as_str());
                text.append(" bytes\ndimensions: ");
                text.append(dimensions_label(entry.dimensions).as_str());
                text.append("\ntype: ");
                text.append(entry.media_kind.as_str());
                Some(text)
            },
            None => None,
        }
    }

    /// The question whether to delete the marked files.
    pub fn confirm_text(&self) -> (text: String)
        ensures
            text@ == confirm_question(self@.state.delete_queue.len()),
    {
        let mut text = "Delete ".to_owned();
        text.append(to_decimal(self.state.queue_count() as u128).as_str());
        text.append(" queued file(s)?  [y] yes   [n] no");
        text
    }
}

proof fn lemma_cells_distinct(view: GuiView)
    requires
        view.state.entries.len() <= usize::MAX,
    ensures
        view.cell_indices().no_duplicates(),
{
    crate::state::law_queued_indices(
        view.state.entries,
        view.state.delete_queue,
        view.state.entries.len(),
    );
    let queued = view.state.queued_indices();
    let cells = view.cell_indices();
    assert forall|i: int, j: int|
        0 <= i < cells.len() && 0 <= j < cells.len() && i != j implies cells[i] != cells[j] by {
        if view.state.mode == ViewMode::DeleteQueueGrid {
            assert(queued[i] != queued[j]);
        }
    }
}

/// The cell of an entry is framed as the current one where it is selected, else as a marked
/// one where it is marked; it says whether it is marked, and what kind of media it holds
/// where badges are shown and both kinds are listed, unless its video plays there.
pub proof fn law_cells_tell_of_their_files(view: GuiView, index: int)
    requires
        0 <= index < view.state.entries.len(),
    ensures
        ({
            let entry = view.state.entries[index];
            let plan = view.cell_plan(index);
            let marked = view.state.delete_queue.contains(entry.path);
            &&& plan.queued == marked
            &&& index == view.state.current_index ==> plan.border == CellBorder::Current
            &&& index != view.state.current_index && marked ==> plan.border == CellBorder::Queued
            &&& index != view.state.current_index && !marked ==> plan.border == CellBorder::Plain
            &&& !view.media_type_badges_visible || view.state.media_mode != MediaMode::Both
                ==> plan.badge is None
            &&& view.media_type_badges_visible && view.state.media_mode == MediaMode::Both && (
            entry.media_kind is Image || view.active_video is None) ==> plan.badge == Some(
                entry.media_kind,
            )
        }),
{
}

/// A click selects the file of a cell, and a double click opens it in the preview; neither
/// changes a mark.
pub proof fn law_clicks_select(view: GuiView, index: int, double: bool)
    requires
        0 <= index < view.state.entries.len(),
        view.state.entries.len() <= usize::MAX,
    ensures
        view.clicked(index, double).state.current_index == index,
        view.clicked(index, double).state.delete_queue == view.state.delete_queue,
        view.clicked(index, double).state.entries == view.state.entries,
        double ==> view.clicked(index, double).state.mode == ViewMode::Preview,
        !double ==> view.clicked(index, double).state.mode == view.state.mode,
{
    super::keys::lemma_selected_state(view, index);
    let chosen = view.selected(index);
    super::keys::lemma_selected_state(chosen, index);
    reveal(GuiView::previewing);
}

/// The preview shows the frame of the video that plays there, else the decoded picture in
/// the size that is asked for, else why it could not be decoded, else that it is loading;
/// without an entry it shows nothing.
pub proof fn law_preview_shows_what_there_is(view: GuiView)
    ensures
        view.state.current_index >= view.state.entries.len() ==> view.preview_plan()
            is Empty,
        view.state.current_index < view.state.entries.len() ==> {
            let entry = view.state.entries[view.state.current_index as int];
            let variant = if view.state.zoom_mode == ZoomMode::Fit {
                Variant::Fit
            } else {
                Variant::Original
            };
            let key = TexKeyView { path: entry.path, variant, media_kind: entry.media_kind };
            let frame = view.active_video matches Some(video) && video.handle.path == entry.path
                && video.has_texture;
            &&& frame ==> view.preview_plan() is VideoFrame
            &&& !frame ==> match held_by(view.previews.slots, key.slot()) {
                Some(texture) => view.preview_plan() == PreviewPlanView::Texture(texture.0),
                None => match map_get(view.failed, key) {
                    Some(error) => view.preview_plan() == PreviewPlanView::Failed(error),
                    None => view.preview_plan() is Loading,
                },
            }
        },
{
}

/// What was decoded of the current entry is shown in the preview, and so is why it could
/// not be.
pub proof fn law_decoded_files_are_shown(view: GuiView, decoded: DecodedView)
    requires
        view.previews.sound(),
        view.active_video is None,
        view.state.current_index < view.state.entries.len(),
        decoded.generation == view.scan_generation,
        decoded.key == entry_key(
            view.state.entries[view.state.current_index as int],
            view.preview_variant(),
        ),
    ensures
        decoded.texture matches Ok(texture) ==> view.after_decode(decoded).preview_plan()
            == PreviewPlanView::Texture(texture.0),
        decoded.texture matches Err(error) ==> (!has_slot(
            view.previews.slots,
            decoded.key.slot(),
        ) ==> view.after_decode(decoded).preview_plan() == PreviewPlanView::Failed(error)),
{
    let after = view.after_decode(decoded);
    assert(decoded.key.variant != Variant::Thumb);
    match decoded.texture {
        Ok(texture) => {
            let slot: SlotView = (decoded.key.slot(), texture.0, texture.1);
            let stored = view.previews.stored(slot);
            law_cache_stays_sound(view.previews, decoded.key.slot(), slot);
            law_trimmed_cache_is_within_budget(stored, PREVIEW_BYTES as int);
            let left = stored.trimmed(PREVIEW_BYTES as int);
            assert(left.slots[0] == slot);
            assert(slot_at(left.slots, slot.0, 0));
            let found = slot_index(left.slots, slot.0);
            assert(slot_at(left.slots, slot.0, found));
            if found > 0 {
                assert(left.slots[0].0 != left.slots[found].0);
            }
            assert(after.previews == left && after.state == view.state && after.active_video
                is None) by {
                reveal(GuiView::decode_ended);
                reveal(GuiView::texture_stored);
            }
        },
        Err(error) => {
            assert(after.previews == view.previews && after.state == view.state
                && after.active_video is None && after.failed == map_with(
                view.failed,
                decoded.key,
                error,
            )) by {
                reveal(GuiView::decode_ended);
                reveal(GuiView::failure_noted);
            }
            crate::assoc::law_map_lookup(view.failed, decoded.key, error, decoded.key);
        },
    }
}

/// The grid scrolls to the row of the current entry, where it was asked to and the row is
/// not visible; else it stays where it is.
pub proof fn law_the_grid_scrolls_to_the_current_entry(view: GuiView, row: int)
    requires
        view.state.mode == ViewMode::Grid,
        view.state.current_index < view.state.entries.len(),
        view.grid_cols >= 1,
        row == view.state.current_index as int / view.grid_cols as int,
    ensures
        !view.scroll_to_current ==> view.scroll_row() is None,
        view.last_visible_rows.0 <= row < view.last_visible_rows.1 ==> view.scroll_row() is None,
        view.scroll_to_current && (row < view.last_visible_rows.0 || row
            >= view.last_visible_rows.1) ==> view.scroll_row() == Some(row),
{
    let cells = view.cell_indices();
    let current = view.state.current_index as int;
    assert(cells[current] == current);
    assert(cells.contains(current));
    let found = cells.index_of(current);
    assert(cells[found] == found);
}

/// The window is drawn again while something is decoded, while the progress is shown, and
/// while a video plays; else it waits for the next event.
pub proof fn law_the_window_is_drawn_while_something_moves(view: GuiView, now: u128)
    ensures
        view.inflight.len() > 0 ==> view.wants_repaint(now),
        now < view.video_progress_overlay_visible_until ==> view.wants_repaint(now),
        (view.active_video matches Some(video) && !video.handle.controls.paused && !video.ended)
            ==> view.wants_repaint(now),
        view.inflight.len() == 0 && now >= view.video_progress_overlay_visible_until
            && view.active_video is None ==> !view.wants_repaint(now),
{
}

/// The line at the bottom of the window tells the number of the current entry, from one,
/// how many entries there are, how many are marked, in what order they are, and the
/// status.
pub proof fn law_the_status_line_tells(view: GuiView)
    requires
        view.state.current_index < view.state.entries.len(),
    ensures
        tells(
            view.status_line(),
            decimal((view.state.current_index + 1) as nat) + " / "@ + decimal(
                view.state.entries.len(),
            ),
        ),
        tells(view.status_line(), "queued: "@ + decimal(view.state.delete_queue.len())),
        tells(view.status_line(), "sort: "@ + view.state.sort_mode.name()),
        tells(view.status_line(), view.status),
        view.video_muted ==> tells(view.status_line(), "audio: muted"@),
        !view.video_muted ==> tells(view.status_line(), "audio: on"@),
        view.auto_next ==> tells(view.status_line(), "auto-next: on"@),
        !view.auto_next ==> tells(view.status_line(), "auto-next: off"@),
{
    let line = view.status_line();
    let (bar, place) = ("  |  "@, view.position_text());
    let (queued, order) = (decimal(view.state.delete_queue.len()), view.state.sort_mode.name());
    let audio = if view.video_muted {
        "muted"@
    } else {
        "on"@
    };
    let next = if view.auto_next {
        "on"@
    } else {
        "off"@
    };
    let start = view.mode_name() + bar;
    let marks = start + place + bar + view.zoom_name();
    let sorts = marks + "  |  queued: "@ + queued;
    let sounds = sorts + "  |  sort: "@ + order;
    let steps = sounds + "  |  audio: "@ + audio;
    let last = steps + "  |  auto-next: "@ + next;
    assert(line =~= last + bar + view.status);
    assert(encloses(line, start, place, line.skip((start + place).len() as int))) by {
        assert(line =~= start + place + line.skip((start + place).len() as int));
    }
    reveal_strlit("  |  ");
    reveal_strlit("  |  queued: ");
    reveal_strlit("queued: ");
    reveal_strlit("  |  sort: ");
    reveal_strlit("sort: ");
    reveal_strlit("  |  audio: ");
    reveal_strlit("audio: muted");
    reveal_strlit("audio: on");
    reveal_strlit("muted");
    reveal_strlit("on");
    reveal_strlit("off");
    reveal_strlit("  |  auto-next: ");
    reveal_strlit("auto-next: on");
    reveal_strlit("auto-next: off");
    assert("  |  queued: "@ =~= bar + "queued: "@);
    assert("  |  sort: "@ =~= bar + "sort: "@);
    assert("  |  audio: "@ + "muted"@ =~= bar + "audio: muted"@);
    assert("  |  audio: "@ + "on"@ =~= bar + "audio: on"@);
    assert("  |  auto-next: "@ + "on"@ =~= bar + "auto-next: on"@);
    assert("  |  auto-next: "@ + "off"@ =~= bar + "auto-next: off"@);
    lemma_line_tells(line, marks, bar + ("queued: "@ + queued), sorts, "queued: "@ + queued);
    lemma_line_tells(line, sorts, bar + ("sort: "@ + order), sounds, "sort: "@ + order);
    lemma_line_tells(
        line,
        sounds,
        "  |  audio: "@ + audio,
        steps,
        ("  |  audio: "@ + audio).skip(5),
    );
    lemma_line_tells(
        line,
        steps,
        "  |  auto-next: "@ + next,
        last,
        ("  |  auto-next: "@ + next).skip(5),
    );
    assert(("  |  audio: "@ + "muted"@).skip(5) =~= "audio: muted"@);
    assert(("  |  audio: "@ + "on"@).skip(5) =~= "audio: on"@);
    assert(("  |  auto-next: "@ + "on"@).skip(5) =~= "auto-next: on"@);
    assert(("  |  auto-next: "@ + "off"@).skip(5) =~= "auto-next: off"@);
    assert(encloses(line, last + bar, view.status, Seq::empty())) by {
        assert(line =~= last + bar + view.status + Seq::<char>::empty());
    }
}

/// A line that starts with a text, with a piece of five characters more and a part behind
/// them, holds the part.
proof fn lemma_line_tells(
    line: Seq<char>,
    front: Seq<char>,
    piece: Seq<char>,
    longer: Seq<char>,
    part: Seq<char>,
)
    requires
        longer =~= front + piece,
        longer.len() <= line.len(),
        line.take(longer.len() as int) =~= longer,
        piece.len() >= 5,
        part =~= piece.skip(5),
    ensures
        tells(line, part),
{
    let before = line.take((front.len() + 5) as int);
    let after = line.skip(longer.len() as int);
    assert(part =~= line.subrange((front.len() + 5) as int, longer.len() as int)) by {
        assert forall|i: int| 0 <= i < part.len() implies part[i] == line.subrange(
            (front.len() + 5) as int,
            longer.len() as int,
        )[i] by {
            assert(part[i] == piece[i + 5]);
            assert(longer[front.len() + 5 + i] == piece[i + 5]);
            assert(line.take(longer.len() as int)[front.len() + 5 + i] == longer[front.len() + 5
                + i]);
        }
    }
    assert(line =~= before + part + after);
    assert(encloses(line, before, part, after));
}

/// The info of a file tells its name, its path, its size in bytes and, where they are
/// known, its width and height; and the question before a deletion how many files are
/// marked.
pub proof fn law_infos_tell(entry: EntryView, path: Seq<char>, count: nat)
    ensures
        tells(info_of(entry, path), entry.display_name),
        tells(info_of(entry, path), path),
        tells(info_of(entry, path), decimal(entry.file_len as nat)),
        tells(info_of(entry, path), entry.media_kind.name()),
        entry.dimensions matches Some((width, height)) ==> tells(
            info_of(entry, path),
            decimal(width as nat) + "×"@ + decimal(height as nat),
        ),
        tells(confirm_question(count), decimal(count)),
{
    let info = info_of(entry, path);
    let (name, size) = (entry.display_name, decimal(entry.file_len as nat));
    let (sides, kind) = (dimensions_text(entry.dimensions), entry.media_kind.name());
    let a = name + "\npath: "@;
    let b = a + path + "\nsize: "@;
    let c = b + size + " bytes\ndimensions: "@;
    let d = c + sides + "\ntype: "@;
    assert(info =~= d + kind);
    assert(encloses(info, Seq::empty(), name, info.skip(name.len() as int))) by {
        assert(info =~= Seq::<char>::empty() + name + info.skip(name.len() as int));
    }
    assert(encloses(info, a, path, info.skip((a + path).len() as int))) by {
        assert(info =~= a + path + info.skip((a + path).len() as int));
    }
    assert(encloses(info, b, size, info.skip((b + size).len() as int))) by {
        assert(info =~= b + size + info.skip((b + size).len() as int));
    }
    assert(encloses(info, c, sides, info.skip((c + sides).len() as int))) by {
        assert(info =~= c + sides + info.skip((c + sides).len() as int));
    }
    assert(encloses(info, d, kind, Seq::empty())) by {
        assert(info =~= d + kind + Seq::<char>::empty());
    }
    assert(encloses(
        confirm_question(count),
        "Delete "@,
        decimal(count),
        " queued file(s)?  [y] yes   [n] no"@,
    ));
}

} // verus!
