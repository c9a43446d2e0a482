//! What the viewer knows: the media entries of a scan, the selection, the view
//! and sort modes, and the files marked for deletion.

use vstd::prelude::*;

use crate::assoc::{lemma_filter, Key};
use crate::numbers::{
    least, magnitude, max_usize, min_usize, most, saturating_product, step_towards, stepped,
};
use crate::path::{path_of, MediaPath, PathNames};
use crate::queue::{removed_from, PathSet};
use crate::text::{lowercase, same_text, text_copy, text_of, texts_of, to_lowercase};

verus! {

/// The media that a scan is limited to.
#[derive(Debug, Clone, Copy, PartialEq, Eq, Structural)]
pub enum MediaMode {
    Both,
    Image,
    Video,
}

/// What a media file holds.
#[derive(Debug, Clone, Copy, PartialEq, Eq, Hash, Structural)]
pub enum MediaKind {
    Image(ImageKind),
    Video(VideoKind),
}

/// The image formats.
#[derive(Debug, Clone, Copy, PartialEq, Eq, Hash, Structural)]
pub enum ImageKind {
    Jpeg,
    Png,
    WebP,
    Gif,
    Bmp,
    Tiff,
    Avif,
    Qoi,
    Ico,
}

/// The video containers.
#[derive(Debug, Clone, Copy, PartialEq, Eq, Hash, Structural)]
pub enum VideoKind {
    Mp4,
    M4v,
    Mov,
    Mkv,
    WebM,
    Avi,
    Mpeg,
    M2v,
    TransportStream,
    Wmv,
    Flv,
    ThreeGp,
    Ogv,
}

/// What the window shows.
#[derive(Debug, Clone, Copy, PartialEq, Eq, Structural)]
pub enum ViewMode {
    Preview,
    Grid,
    DeleteQueueGrid,
}

/// The order of the entries.
#[derive(Debug, Clone, Copy, PartialEq, Eq, Structural)]
pub enum SortMode {
    Discovered,
    Newest,
    Oldest,
    NameAsc,
    NameDesc,
}

/// How large a preview is drawn.
#[derive(Debug, Clone, Copy, PartialEq, Eq, Hash, Structural)]
pub enum ZoomMode {
    Fit,
    OriginalPixels,
}

/// The layout and list that previews were last prefetched for.
#[derive(Debug, Clone, Copy, PartialEq, Eq, Structural)]
pub struct PreviewPrefetchMarker {
    pub generation: u64,
    pub width_cells: u16,
    pub height_cells: u16,
    pub zoom_mode: ZoomMode,
    pub entry_count: usize,
}

/// The image format that a lowercase extension stands for.
pub open spec fn image_kind(extension: Seq<char>) -> Option<ImageKind> {
    if extension == "jpg"@ || extension == "jpeg"@ {
        Some(ImageKind::Jpeg)
    } else if extension == "png"@ {
        Some(ImageKind::Png)
    } else if extension == "webp"@ {
        Some(ImageKind::WebP)
    } else if extension == "gif"@ {
        Some(ImageKind::Gif)
    } else if extension == "bmp"@ {
        Some(ImageKind::Bmp)
    } else if extension == "tif"@ || extension == "tiff"@ {
        Some(ImageKind::Tiff)
    } else if extension == "avif"@ {
        Some(ImageKind::Avif)
    } else if extension == "qoi"@ {
        Some(ImageKind::Qoi)
    } else if extension == "ico"@ {
        Some(ImageKind::Ico)
    } else {
        None
    }
}

/// The video container that a lowercase extension stands for.
pub open spec fn video_kind(extension: Seq<char>) -> Option<VideoKind> {
    if extension == "mp4"@ {
        Some(VideoKind::Mp4)
    } else if extension == "m4v"@ {
        Some(VideoKind::M4v)
    } else if extension == "mov"@ {
        Some(VideoKind::Mov)
    } else if extension == "mkv"@ {
        Some(VideoKind::Mkv)
    } else if extension == "webm"@ {
        Some(VideoKind::WebM)
    } else if extension == "avi"@ {
        Some(VideoKind::Avi)
    } else if extension == "mpg"@ || extension == "mpeg"@ {
        Some(VideoKind::Mpeg)
    } else if extension == "m2v"@ {
        Some(VideoKind::M2v)
    } else if extension == "ts"@ || extension == "m2ts"@ || extension == "mts"@ {
        Some(VideoKind::TransportStream)
    } else if extension == "wmv"@ {
        Some(VideoKind::Wmv)
    } else if extension == "flv"@ {
        Some(VideoKind::Flv)
    } else if extension == "3gp"@ || extension == "3g2"@ {
        Some(VideoKind::ThreeGp)
    } else if extension == "ogv"@ {
        Some(VideoKind::Ogv)
    } else {
        None
    }
}

/// The media that a lowercase extension stands for.
pub open spec fn media_kind(extension: Seq<char>) -> Option<MediaKind> {
    match image_kind(extension) {
        Some(kind) => Some(MediaKind::Image(kind)),
        None => match video_kind(extension) {
            Some(kind) => Some(MediaKind::Video(kind)),
            None => None,
        },
    }
}

impl MediaKind {
    /// The media that an extension stands for, in any ASCII case.
    pub fn from_extension(ext: Option<&str>) -> (kind: Option<MediaKind>)
        ensures
            kind == match ext {
                Some(text) => media_kind(lowercase(text@)),
                None => None,
            },
    {
        match ImageKind::from_extension(ext) {
            Some(kind) => Some(MediaKind::Image(kind)),
            None => match VideoKind::from_extension(ext) {
                Some(kind) => Some(MediaKind::Video(kind)),
                None => None,
            },
        }
    }

    pub fn is_image(&self) -> (yes: bool)
        ensures
            yes == (self is Image),
    {
        match self {
            MediaKind::Image(_) => true,
            MediaKind::Video(_) => false,
        }
    }

    pub fn is_video(&self) -> (yes: bool)
        ensures
            yes == (self is Video),
    {
        match self {
            MediaKind::Image(_) => false,
            MediaKind::Video(_) => true,
        }
    }

    /// The name of the format.
    pub open spec fn name(self) -> Seq<char> {
        match self {
            MediaKind::Image(kind) => kind.name(),
            MediaKind::Video(kind) => kind.name(),
        }
    }

    pub fn as_str(&self) -> (text: &str)
        ensures
            text@ == self.name(),
    {
        match self {
            MediaKind::Image(kind) => kind.as_str(),
            MediaKind::Video(kind) => kind.as_str(),
        }
    }
}

impl ImageKind {
    /// The image format that an extension stands for, in any ASCII case.
    pub fn from_extension(ext: Option<&str>) -> (kind: Option<ImageKind>)
        ensures
            kind == match ext {
                Some(text) => image_kind(lowercase(text@)),
                None => None,
            },
    {
        let text = match ext {
            Some(text) => to_lowercase(text),
            None => {
                return None;
            },
        };
        let name = text.as_str();
        if same_text(name, "jpg") || same_text(name, "jpeg") {
            Some(ImageKind::Jpeg)
        } else if same_text(name, "png") {
            Some(ImageKind::Png)
        } else if same_text(name, "webp") {
            Some(ImageKind::WebP)
        } else if same_text(name, "gif") {
            Some(ImageKind::Gif)
        } else if same_text(name, "bmp") {
            Some(ImageKind::Bmp)
        } else if same_text(name, "tif") || same_text(name, "tiff") {
            Some(ImageKind::Tiff)
        } else if same_text(name, "avif") {
            Some(ImageKind::Avif)
        } else if same_text(name, "qoi") {
            Some(ImageKind::Qoi)
        } else if same_text(name, "ico") {
            Some(ImageKind::Ico)
        } else {
            None
        }
    }

    /// The name of the format.
    pub open spec fn name(self) -> Seq<char> {
        match self {
            ImageKind::Jpeg => "JPEG"@,
            ImageKind::Png => "PNG"@,
            ImageKind::WebP => "WebP"@,
            ImageKind::Gif => "GIF"@,
            ImageKind::Bmp => "BMP"@,
            ImageKind::Tiff => "TIFF"@,
            ImageKind::Avif => "AVIF"@,
            ImageKind::Qoi => "QOI"@,
            ImageKind::Ico => "ICO"@,
        }
    }

    pub fn as_str(&self) -> (text: &str)
        ensures
            text@ == self.name(),
    {
        match self {
            ImageKind::Jpeg => "JPEG",
            ImageKind::Png => "PNG",
            ImageKind::WebP => "WebP",
            ImageKind::Gif => "GIF",
            ImageKind::Bmp => "BMP",
            ImageKind::Tiff => "TIFF",
            ImageKind::Avif => "AVIF",
            ImageKind::Qoi => "QOI",
            ImageKind::Ico => "ICO",
        }
    }
}

impl VideoKind {
    /// The video container that an extension stands for, in any ASCII case.
    pub fn from_extension(ext: Option<&str>) -> (kind: Option<VideoKind>)
        ensures
            kind == match ext {
                Some(text) => video_kind(lowercase(text@)),
                None => None,
            },
    {
        let text = match ext {
            Some(text) => to_lowercase(text),
            None => {
                return None;
            },
        };
        let name = text.as_str();
        if same_text(name, "mp4") {
            Some(VideoKind::Mp4)
        } else if same_text(name, "m4v") {
            Some(VideoKind::M4v)
        } else if same_text(name, "mov") {
            Some(VideoKind::Mov)
        } else if same_text(name, "mkv") {
            Some(VideoKind::Mkv)
        } else if same_text(name, "webm") {
            Some(VideoKind::WebM)
        } else if same_text(name, "avi") {
            Some(VideoKind::Avi)
        } else if same_text(name, "mpg") || same_text(name, "mpeg") {
            Some(VideoKind::Mpeg)
        } else if same_text(name, "m2v") {
            Some(VideoKind::M2v)
        } else if same_text(name, "ts") || same_text(name, "m2ts") || same_text(name, "mts") {
            Some(VideoKind::TransportStream)
        } else if same_text(name, "wmv") {
            Some(VideoKind::Wmv)
        } else if same_text(name, "flv") {
            Some(VideoKind::Flv)
        } else if same_text(name, "3gp") || same_text(name, "3g2") {
            Some(VideoKind::ThreeGp)
        } else if same_text(name, "ogv") {
            Some(VideoKind::Ogv)
        } else {
            None
        }
    }

    /// The name of the container.
    pub open spec fn name(self) -> Seq<char> {
        match self {
            VideoKind::Mp4 => "MP4"@,
            VideoKind::M4v => "M4V"@,
            VideoKind::Mov => "MOV"@,
            VideoKind::Mkv => "Matroska"@,
            VideoKind::WebM => "WebM"@,
            VideoKind::Avi => "AVI"@,
            VideoKind::Mpeg => "MPEG"@,
            VideoKind::M2v => "MPEG-2 Video"@,
            VideoKind::TransportStream => "Transport Stream"@,
            VideoKind::Wmv => "WMV"@,
            VideoKind::Flv => "FLV"@,
            VideoKind::ThreeGp => "3GP"@,
            VideoKind::Ogv => "Ogg Video"@,
        }
    }

    pub fn as_str(&self) -> (text: &str)
        ensures
            text@ == self.name(),
    {
        match self {
            VideoKind::Mp4 => "MP4",
            VideoKind::M4v => "M4V",
            VideoKind::Mov => "MOV",
            VideoKind::Mkv => "Matroska",
            VideoKind::WebM => "WebM",
            VideoKind::Avi => "AVI",
            VideoKind::Mpeg => "MPEG",
            VideoKind::M2v => "MPEG-2 Video",
            VideoKind::TransportStream => "Transport Stream",
            VideoKind::Wmv => "WMV",
            VideoKind::Flv => "FLV",
            VideoKind::ThreeGp => "3GP",
            VideoKind::Ogv => "Ogg Video",
        }
    }
}

impl SortMode {
    /// The name of the mode.
    pub open spec fn name(self) -> Seq<char> {
        match self {
            SortMode::Discovered => "Discovered"@,
            SortMode::Newest => "Newest"@,
            SortMode::Oldest => "Oldest"@,
            SortMode::NameAsc => "NameAsc"@,
            SortMode::NameDesc => "NameDesc"@,
        }
    }

    /// The name of the mode, as status lines show it.
    pub fn as_str(&self) -> (text: &'static str)
        ensures
            text@ == self.name(),
    {
        match self {
            SortMode::Discovered => "Discovered",
            SortMode::Newest => "Newest",
            SortMode::Oldest => "Oldest",
            SortMode::NameAsc => "NameAsc",
            SortMode::NameDesc => "NameDesc",
        }
    }
}

/// A file name of the operating system, in the forms in which it is read.
#[derive(Debug, PartialEq, Eq)]
pub struct FileName {
    /// The name, where it is valid Unicode.
    pub text: Option<String>,
    /// The name, with what is not Unicode replaced.
    pub lossy: String,
    /// The name quoted, with what is not Unicode escaped.
    pub quoted: String,
}

/// The contents of a [`FileName`].
pub struct FileNameView {
    pub text: Option<Seq<char>>,
    pub lossy: Seq<char>,
    pub quoted: Seq<char>,
}

impl View for FileName {
    type V = FileNameView;

    open spec fn view(&self) -> FileNameView {
        FileNameView { text: text_of(self.text), lossy: self.lossy@, quoted: self.quoted@ }
    }
}

impl Clone for FileName {
    fn clone(&self) -> (copy: Self)
        ensures
            copy@ == self@,
    {
        FileName {
            text: text_copy(&self.text),
            lossy: self.lossy.clone(),
            quoted: self.quoted.clone(),
        }
    }
}

/// A media file that a scan found. Times are nanoseconds since the Unix epoch.
#[derive(Debug, PartialEq, Eq)]
pub struct MediaEntry {
    pub path: MediaPath,
    pub file_name: FileName,
    pub display_name: String,
    pub extension: Option<String>,
    pub file_len: u64,
    pub created: Option<i128>,
    pub modified: Option<i128>,
    pub discovered_order: usize,
    pub dimensions: Option<(u32, u32)>,
    pub media_kind: MediaKind,
    pub exif_date: Option<i128>,
    pub exif_orientation: Option<u16>,
    pub dimensions_attempted: bool,
    pub exif_attempted: bool,
}

/// The contents of a [`MediaEntry`].
pub struct EntryView {
    pub path: PathNames,
    pub file_name: FileNameView,
    pub display_name: Seq<char>,
    pub extension: Option<Seq<char>>,
    pub file_len: u64,
    pub created: Option<i128>,
    pub modified: Option<i128>,
    pub discovered_order: usize,
    pub dimensions: Option<(u32, u32)>,
    pub media_kind: MediaKind,
    pub exif_date: Option<i128>,
    pub exif_orientation: Option<u16>,
    pub dimensions_attempted: bool,
    pub exif_attempted: bool,
}

impl View for MediaEntry {
    type V = EntryView;

    open spec fn view(&self) -> EntryView {
        EntryView {
            path: self.path@,
            file_name: self.file_name@,
            display_name: self.display_name@,
            extension: text_of(self.extension),
            file_len: self.file_len,
            created: self.created,
            modified: self.modified,
            discovered_order: self.discovered_order,
            dimensions: self.dimensions,
            media_kind: self.media_kind,
            exif_date: self.exif_date,
            exif_orientation: self.exif_orientation,
            dimensions_attempted: self.dimensions_attempted,
            exif_attempted: self.exif_attempted,
        }
    }
}

impl Clone for MediaEntry {
    fn clone(&self) -> (copy: Self)
        ensures
            copy@ == self@,
    {
        MediaEntry {
            path: self.path.clone(),
            file_name: self.file_name.clone(),
            display_name: self.display_name.clone(),
            extension: text_copy(&self.extension),
            file_len: self.file_len,
            created: self.created,
            modified: self.modified,
            discovered_order: self.discovered_order,
            dimensions: self.dimensions,
            media_kind: self.media_kind,
            exif_date: self.exif_date,
            exif_orientation: self.exif_orientation,
            dimensions_attempted: self.dimensions_attempted,
            exif_attempted: self.exif_attempted,
        }
    }
}

/// The contents of a list of entries.
pub open spec fn entries_of(entries: Seq<MediaEntry>) -> Seq<EntryView> {
    Seq::new(entries.len(), |i: int| entries[i]@)
}

/// Whether an entry of a list has a path.
pub open spec fn lists_path(entries: Seq<EntryView>, path: PathNames) -> bool {
    exists|i: int| 0 <= i < entries.len() && (#[trigger] entries[i]).path == path
}

/// Whether the first entry with a path is at an index.
pub open spec fn first_at(entries: Seq<EntryView>, path: PathNames, index: int) -> bool {
    &&& 0 <= index < entries.len()
    &&& entries[index].path == path
    &&& forall|i: int| 0 <= i < index ==> (#[trigger] entries[i]).path != path
}

/// The index of the first entry with a path.
pub open spec fn entry_position(entries: Seq<EntryView>, path: PathNames) -> Option<int> {
    if lists_path(entries, path) {
        Some(choose|index: int| first_at(entries, path, index))
    } else {
        None
    }
}

/// A path in a list has exactly one first index.
pub proof fn lemma_entry_position(entries: Seq<EntryView>, path: PathNames, index: int)
    requires
        first_at(entries, path, index),
    ensures
        entry_position(entries, path) == Some(index),
{
    let found = choose|i: int| first_at(entries, path, i);
    assert(first_at(entries, path, found));
    if found < index {
        assert(entries[found].path != path);
    }
    if index < found {
        assert(entries[index].path != path);
    }
}

/// The index of the first entry with a path.
pub fn find_entry(entries: &Vec<MediaEntry>, path: &MediaPath) -> (position: Option<usize>)
    ensures
        match position {
            Some(index) => entry_position(entries_of(entries@), path@) == Some(index as int)
                && first_at(entries_of(entries@), path@, index as int),
            None => entry_position(entries_of(entries@), path@) is None,
        },
{
    let mut index: usize = 0;
    while index < entries.len()
        invariant
            index <= entries@.len(),
            forall|i: int|
                0 <= i < index ==> (#[trigger] entries_of(entries@)[i]).path != path@,
        decreases entries@.len() - index,
    {
        if entries[index].path.same(path) {
            proof {
                lemma_entry_position(entries_of(entries@), path@, index as int);
            }
            return Some(index);
        }
        index += 1;
    }
    None
}

/// The state of a viewing session.
#[derive(Debug)]
pub struct AppState {
    pub directory: MediaPath,
    /// The files of an explicit multi-file launch, which scans stay limited to.
    pub selected_files: Option<PathSet>,
    pub recursive: bool,
    pub include_hidden: bool,
    pub media_mode: MediaMode,
    pub extensions: Vec<String>,
    pub entries: Vec<MediaEntry>,
    pub current_index: usize,
    pub mode: ViewMode,
    pub sort_mode: SortMode,
    pub zoom_mode: ZoomMode,
    pub delete_queue: PathSet,
    pub show_info_overlay: bool,
    pub show_help_overlay: bool,
    pub fullscreen_ui: bool,
    pub grid_page: usize,
    pub status_message: Option<String>,
    pub confirm_delete: bool,
    pub thumbnail_generation: u64,
    pub last_grid_page_size: usize,
    pub last_preview_size: Option<(u16, u16)>,
    pub last_grid_cell_size: Option<(u16, u16)>,
    pub eager_preview_prefetch: Option<PreviewPrefetchMarker>,
}

/// The contents of an [`AppState`].
pub struct StateView {
    pub directory: PathNames,
    pub selected_files: Option<Seq<PathNames>>,
    pub recursive: bool,
    pub include_hidden: bool,
    pub media_mode: MediaMode,
    pub extensions: Seq<Seq<char>>,
    pub entries: Seq<EntryView>,
    pub current_index: usize,
    pub mode: ViewMode,
    pub sort_mode: SortMode,
    pub zoom_mode: ZoomMode,
    pub delete_queue: Seq<PathNames>,
    pub show_info_overlay: bool,
    pub show_help_overlay: bool,
    pub fullscreen_ui: bool,
    pub grid_page: usize,
    pub status_message: Option<Seq<char>>,
    pub confirm_delete: bool,
    pub thumbnail_generation: u64,
    pub last_grid_page_size: usize,
    pub last_preview_size: Option<(u16, u16)>,
    pub last_grid_cell_size: Option<(u16, u16)>,
    pub eager_preview_prefetch: Option<PreviewPrefetchMarker>,
}

impl View for AppState {
    type V = StateView;

    open spec fn view(&self) -> StateView {
        StateView {
            directory: self.directory@,
            selected_files: match self.selected_files {
                Some(files) => Some(files@),
                None => None,
            },
            recursive: self.recursive,
            include_hidden: self.include_hidden,
            media_mode: self.media_mode,
            extensions: texts_of(self.extensions@),
            entries: entries_of(self.entries@),
            current_index: self.current_index,
            mode: self.mode,
            sort_mode: self.sort_mode,
            zoom_mode: self.zoom_mode,
            delete_queue: self.delete_queue@,
            show_info_overlay: self.show_info_overlay,
            show_help_overlay: self.show_help_overlay,
            fullscreen_ui: self.fullscreen_ui,
            grid_page: self.grid_page,
            status_message: text_of(self.status_message),
            confirm_delete: self.confirm_delete,
            thumbnail_generation: self.thumbnail_generation,
            last_grid_page_size: self.last_grid_page_size,
            last_preview_size: self.last_preview_size,
            last_grid_cell_size: self.last_grid_cell_size,
            eager_preview_prefetch: self.eager_preview_prefetch,
        }
    }
}

/// The indices of the entries among the first `count` whose path is queued, in
/// ascending order.
pub open spec fn queued_among(
    entries: Seq<EntryView>,
    queue: Seq<PathNames>,
    count: nat,
) -> Seq<usize>
    decreases count,
{
    if count == 0 {
        Seq::empty()
    } else {
        let front = queued_among(entries, queue, (count - 1) as nat);
        if queue.contains(entries[count - 1].path) {
            front.push((count - 1) as usize)
        } else {
            front
        }
    }
}

/// The position of a number in a list without duplicates, or 0 where the list
/// does not hold it.
pub open spec fn position_or_first(indices: Seq<usize>, index: usize) -> int {
    if indices.contains(index) {
        indices.index_of(index)
    } else {
        0
    }
}

impl StateView {
    /// The selected entry.
    pub open spec fn current_entry(self) -> Option<EntryView> {
        if self.current_index < self.entries.len() {
            Some(self.entries[self.current_index as int])
        } else {
            None
        }
    }

    /// The path of the selected entry.
    pub open spec fn current_path(self) -> Option<PathNames> {
        match self.current_entry() {
            Some(entry) => Some(entry.path),
            None => None,
        }
    }

    /// Whether the selected entry is a video.
    pub open spec fn current_is_video(self) -> bool {
        match self.current_entry() {
            Some(entry) => entry.media_kind is Video,
            None => false,
        }
    }

    /// Whether the selected entry is queued for deletion.
    pub open spec fn current_queued(self) -> bool {
        match self.current_path() {
            Some(path) => self.delete_queue.contains(path),
            None => false,
        }
    }

    /// The indices of the queued entries, in ascending order.
    pub open spec fn queued_indices(self) -> Seq<usize> {
        queued_among(self.entries, self.delete_queue, self.entries.len())
    }

    /// The state with the grid turned to the page of the selected entry.
    pub open spec fn page_synced(self) -> StateView {
        StateView {
            grid_page: if self.last_grid_page_size == 0 {
                0
            } else {
                (self.current_index as int / self.last_grid_page_size as int) as usize
            },
            ..self
        }
    }

    /// The state with another selection and its grid page.
    pub open spec fn selecting(self, index: int) -> StateView {
        (StateView { current_index: index as usize, ..self }).page_synced()
    }

    /// The state after the selection moved by a number of entries. In the view
    /// of the delete queue the selection moves among the queued entries.
    pub open spec fn moved(self, step: int) -> StateView {
        if self.entries.len() == 0 {
            self
        } else if self.mode == ViewMode::DeleteQueueGrid {
            let indices = self.queued_indices();
            if indices.len() == 0 {
                self
            } else {
                let position = position_or_first(indices, self.current_index);
                self.selecting(indices[stepped(position, step, indices.len() as int)] as int)
            }
        } else {
            self.selecting(stepped(self.current_index as int, step, self.entries.len() as int))
        }
    }

    /// The state after the first entry, or the first queued one in the view of
    /// the delete queue, was selected.
    pub open spec fn at_first(self) -> StateView {
        let indices = self.queued_indices();
        if self.mode == ViewMode::DeleteQueueGrid && indices.len() > 0 {
            self.selecting(indices.first() as int)
        } else {
            self.selecting(0)
        }
    }

    /// The state after the last entry, or the last queued one in the view of
    /// the delete queue, was selected.
    pub open spec fn at_last(self) -> StateView {
        let indices = self.queued_indices();
        if self.mode == ViewMode::DeleteQueueGrid && indices.len() > 0 {
            self.selecting(indices.last() as int)
        } else if self.entries.len() > 0 {
            self.selecting(self.entries.len() - 1)
        } else {
            self
        }
    }

    /// The state after the mark of the selected entry was switched.
    pub open spec fn queue_toggled(self) -> StateView {
        match self.current_path() {
            Some(path) => if self.delete_queue.contains(path) {
                StateView { delete_queue: removed_from(self.delete_queue, path), ..self }
            } else {
                StateView { delete_queue: self.delete_queue.push(path), ..self }
            },
            None => self,
        }
    }

    /// The state after the mark of the selected entry was taken off.
    pub open spec fn unqueued(self) -> StateView {
        match self.current_path() {
            Some(path) => StateView {
                delete_queue: removed_from(self.delete_queue, path),
                ..self
            },
            None => self,
        }
    }

    /// The state for which nothing has been rendered yet.
    pub open spec fn next_generation(self) -> StateView {
        StateView {
            thumbnail_generation: if self.thumbnail_generation == u64::MAX {
                0
            } else {
                (self.thumbnail_generation + 1) as u64
            },
            eager_preview_prefetch: None,
            ..self
        }
    }

    /// The state with another list of entries. Marks of files that are not
    /// listed any more are dropped. The selection stays on the file
    /// `previous` where it is listed, else as near to where it was as possible.
    #[verifier::opaque]
    pub open spec fn with_entries(
        self,
        entries: Seq<EntryView>,
        previous: Option<PathNames>,
    ) -> StateView {
        let kept = match previous {
            Some(path) => entry_position(entries, path),
            None => None,
        };
        let index = match kept {
            Some(index) => index,
            None => least(self.current_index as int, most(entries.len() - 1, 0)),
        };
        (StateView {
            entries,
            delete_queue: self.delete_queue.filter(|path: PathNames| lists_path(entries, path)),
            ..self
        }).selecting(index).next_generation()
    }

    /// The state with its selection inside the list of entries.
    pub open spec fn index_clamped(self) -> StateView {
        self.selecting(least(self.current_index as int, most(self.entries.len() - 1, 0)))
    }

    /// The state that shows the delete queue, with a queued entry selected where
    /// there is one.
    pub open spec fn showing_queue(self) -> StateView {
        let shown = StateView { mode: ViewMode::DeleteQueueGrid, ..self };
        let indices = self.queued_indices();
        if !self.current_queued() && indices.len() > 0 {
            shown.selecting(indices.first() as int)
        } else {
            shown.page_synced()
        }
    }
}

/// The queued indices are the indices of the queued entries, in ascending order.
pub proof fn law_queued_indices(entries: Seq<EntryView>, queue: Seq<PathNames>, count: nat)
    requires
        count <= entries.len(),
        entries.len() <= usize::MAX,
    ensures
        queued_among(entries, queue, count).len() <= count,
        forall|i: int, j: int|
            0 <= i < j < queued_among(entries, queue, count).len() ==> #[trigger] queued_among(
                entries,
                queue,
                count,
            )[i] < #[trigger] queued_among(entries, queue, count)[j],
        forall|index: usize|
            #[trigger] queued_among(entries, queue, count).contains(index) <==> index < count
                && queue.contains(entries[index as int].path),
        queued_among(entries, queue, count).no_duplicates(),
    decreases count,
{
    if count > 0 {
        let front = queued_among(entries, queue, (count - 1) as nat);
        let all = queued_among(entries, queue, count);
        law_queued_indices(entries, queue, (count - 1) as nat);
        assert forall|i: int| 0 <= i < front.len() implies #[trigger] front[i] < count - 1 by {
            assert(front.contains(front[i]));
        }
        assert forall|index: usize| #[trigger] all.contains(index) <==> index < count
            && queue.contains(entries[index as int].path) by {
            if all.contains(index) {
                let i = all.index_of(index);
                if i < front.len() {
                    assert(front.contains(front[i]));
                }
            }
            if index < count && queue.contains(entries[index as int].path) {
                if index < count - 1 {
                    assert(front.contains(index));
                    let i = front.index_of(index);
                    assert(all[i] == index);
                } else {
                    assert(all[front.len() as int] == index);
                }
            }
        }
    }
}

proof fn lemma_empty_queue(entries: Seq<EntryView>, queue: Seq<PathNames>, count: nat)
    requires
        queue.len() == 0,
    ensures
        queued_among(entries, queue, count).len() == 0,
    decreases count,
{
    if count > 0 {
        lemma_empty_queue(entries, queue, (count - 1) as nat);
    }
}

/// Steps past both ends of every list lead to the same entry.
proof fn lemma_far_move(state: StateView, step: int, cut: int)
    requires
        state.entries.len() <= usize::MAX,
        step < 0 ==> cut == most(step, -usize::MAX),
        step >= 0 ==> cut == least(step, usize::MAX as int),
    ensures
        state.moved(step) == state.moved(cut),
{
    law_queued_indices(state.entries, state.delete_queue, state.entries.len());
    let indices = state.queued_indices();
    if indices.contains(state.current_index) {
        assert(indices[indices.index_of(state.current_index)] == state.current_index);
    }
}

impl AppState {
    /// The state at the start of a session.
    pub fn new(
        directory: MediaPath,
        recursive: bool,
        include_hidden: bool,
        media_mode: MediaMode,
        extensions: Vec<String>,
        sort_mode: SortMode,
        entries: Vec<MediaEntry>,
    ) -> (state: AppState)
        ensures
            state@ == (StateView {
                directory: directory@,
                selected_files: None,
                recursive,
                include_hidden,
                media_mode,
                extensions: texts_of(extensions@),
                entries: entries_of(entries@),
                current_index: 0,
                mode: ViewMode::Preview,
                sort_mode,
                zoom_mode: ZoomMode::Fit,
                delete_queue: Seq::empty(),
                show_info_overlay: false,
                show_help_overlay: false,
                fullscreen_ui: false,
                grid_page: 0,
                status_message: None,
                confirm_delete: false,
                thumbnail_generation: 0,
                last_grid_page_size: 1,
                last_preview_size: None,
                last_grid_cell_size: None,
                eager_preview_prefetch: None,
            }),
    {
        AppState {
            directory,
            selected_files: None,
            recursive,
            include_hidden,
            media_mode,
            extensions,
            entries,
            current_index: 0,
            mode: ViewMode::Preview,
            sort_mode,
            zoom_mode: ZoomMode::Fit,
            delete_queue: PathSet::new(),
            show_info_overlay: false,
            show_help_overlay: false,
            fullscreen_ui: false,
            grid_page: 0,
            status_message: None,
            confirm_delete: false,
            thumbnail_generation: 0,
            last_grid_page_size: 1,
            last_preview_size: None,
            last_grid_cell_size: None,
            eager_preview_prefetch: None,
        }
    }

    /// Whether the session is limited to explicitly selected files.
    pub fn is_selected_file_scope(&self) -> (yes: bool)
        ensures
            yes == (self@.selected_files is Some),
    {
        self.selected_files.is_some()
    }

    /// The selected entry.
    pub fn current_entry(&self) -> (entry: Option<&MediaEntry>)
        ensures
            match entry {
                Some(entry) => self@.current_entry() == Some(entry@),
                None => self@.current_entry() is None,
            },
    {
        if self.current_index < self.entries.len() {
            Some(&self.entries[self.current_index])
        } else {
            None
        }
    }

    /// The selected entry, to be changed in place.
    pub fn current_entry_mut(&mut self) -> (entry: Option<&mut MediaEntry>)
        ensures
            match entry {
                Some(entry) => {
                    &&& old(self)@.current_entry() == Some(entry@)
                    &&& final(self)@ == (StateView {
                        entries: old(self)@.entries.update(
                            old(self)@.current_index as int,
                            final(entry)@,
                        ),
                        ..old(self)@
                    })
                },
                None => old(self)@.current_entry() is None && final(self)@ == old(self)@,
            },
    {
        if self.current_index < self.entries.len() {
            let index: usize = self.current_index;
            let entry = &mut self.entries[index];
            assert(entries_of(old(self).entries@.update(index as int, *final(entry)))
                =~= entries_of(old(self).entries@).update(index as int, final(entry)@));
            Some(entry)
        } else {
            None
        }
    }

    /// The path of the selected entry.
    pub fn current_path(&self) -> (path: Option<MediaPath>)
        ensures
            path_of(path) == self@.current_path(),
    {
        match self.current_entry() {
            Some(entry) => Some(entry.path.clone()),
            None => None,
        }
    }

    /// The number of files marked for deletion.
    pub fn queue_count(&self) -> (count: usize)
        ensures
            count == self@.delete_queue.len(),
    {
        self.delete_queue.len()
    }

    /// Whether a file is marked for deletion.
    pub fn is_queued(&self, path: &MediaPath) -> (queued: bool)
        ensures
            queued == self@.delete_queue.contains(path@),
    {
        self.delete_queue.contains(path)
    }

    /// Marks the selected file for deletion, or takes its mark off.
    pub fn toggle_queue_current(&mut self)
        ensures
            final(self)@ == old(self)@.queue_toggled(),
    {
        match self.current_path() {
            Some(path) => {
                if !self.delete_queue.shift_remove(&path) {
                    self.delete_queue.insert(&path);
                }
            },
            None => {},
        }
    }

    /// Takes the mark of the selected file off.
    pub fn unqueue_current(&mut self)
        ensures
            final(self)@ == old(self)@.unqueued(),
    {
        match self.current_path() {
            Some(path) => {
                self.delete_queue.shift_remove(&path);
            },
            None => {},
        }
    }

    /// Selects an entry and turns the grid to its page.
    fn select(&mut self, index: usize)
        ensures
            final(self)@ == old(self)@.selecting(index as int),
    {
        self.current_index = index;
        self.sync_grid_page();
    }

    /// Moves the selection by a distance; among the queued entries in the view
    /// of the delete queue.
    fn move_selection(&mut self, back: bool, distance: usize)
        requires
            back ==> distance > 0,
        ensures
            final(self)@ == old(self)@.moved(
                if back {
                    -distance
                } else {
                    distance as int
                },
            ),
    {
        if self.entries.len() == 0 {
            return;
        }
        if self.mode == ViewMode::DeleteQueueGrid {
            let indices = self.queued_indices();
            if indices.len() == 0 {
                return;
            }
            let position: usize = match position_of(&indices, self.current_index) {
                Some(position) => position,
                None => 0,
            };
            let next: usize = step_towards(position, back, distance, indices.len());
            self.select(indices[next]);
        } else {
            let next: usize = step_towards(
                self.current_index,
                back,
                distance,
                self.entries.len(),
            );
            self.select(next);
        }
    }

    /// Selects the next entry.
    pub fn next(&mut self)
        ensures
            final(self)@ == old(self)@.moved(1),
    {
        self.move_selection(false, 1);
    }

    /// Selects the previous entry.
    pub fn previous(&mut self)
        ensures
            final(self)@ == old(self)@.moved(-1),
    {
        self.move_selection(true, 1);
    }

    /// Selects the first entry.
    pub fn first(&mut self)
        ensures
            final(self)@ == old(self)@.at_first(),
    {
        if self.mode == ViewMode::DeleteQueueGrid {
            let indices = self.queued_indices();
            if indices.len() > 0 {
                self.select(indices[0]);
                return;
            }
        }
        self.select(0);
    }

    /// Selects the last entry.
    pub fn last(&mut self)
        ensures
            final(self)@ == old(self)@.at_last(),
    {
        if self.mode == ViewMode::DeleteQueueGrid {
            let indices = self.queued_indices();
            if indices.len() > 0 {
                self.select(indices[indices.len() - 1]);
                return;
            }
        }
        if self.entries.len() > 0 {
            self.select(self.entries.len() - 1);
        }
    }

    /// Moves the selection by a number of grid pages.
    pub fn page_by(&mut self, delta_pages: isize)
        ensures
            final(self)@ == old(self)@.moved(
                delta_pages * most(old(self)@.last_grid_page_size as int, 1),
            ),
    {
        let page_size: usize = max_usize(self.last_grid_page_size, 1);
        let pages: usize = magnitude(delta_pages);
        let distance: usize = saturating_product(pages, page_size);
        let ghost step = delta_pages * page_size;
        proof {
            assert(delta_pages < 0 ==> step == -(pages * page_size) && pages * page_size >= 1)
                by (nonlinear_arith)
                requires
                    step == delta_pages * page_size,
                    pages == if delta_pages < 0 {
                        -delta_pages
                    } else {
                        delta_pages as int
                    },
                    page_size >= 1,
            ;
            assert(delta_pages >= 0 ==> step == pages * page_size && step >= 0)
                by (nonlinear_arith)
                requires
                    step == delta_pages * page_size,
                    pages == if delta_pages < 0 {
                        -delta_pages
                    } else {
                        delta_pages as int
                    },
                    page_size >= 1,
            ;
            assert(self@.entries.len() == self.entries.len());
            lemma_far_move(self@, step, if delta_pages < 0 {
                -distance
            } else {
                distance as int
            });
        }
        self.move_selection(delta_pages < 0, distance);
    }

    /// Replaces the entries, keeping the selection on the file `previous` where
    /// it is still listed.
    pub fn set_entries_preserving_current(
        &mut self,
        entries: Vec<MediaEntry>,
        previous: Option<MediaPath>,
    )
        ensures
            final(self)@ == old(self)@.with_entries(entries_of(entries@), path_of(previous)),
    {
        proof {
            reveal(StateView::with_entries);
        }
        self.entries = entries;
        self.delete_queue.retain_entries(&self.entries);
        let kept = match &previous {
            Some(path) => find_entry(&self.entries, path),
            None => None,
        };
        let index: usize = match kept {
            Some(index) => index,
            None => min_usize(self.current_index, self.entries.len().saturating_sub(1)),
        };
        self.select(index);
        self.bump_generation();
    }

    /// Moves the selection into the list of entries.
    pub fn clamp_current_index(&mut self)
        ensures
            final(self)@ == old(self)@.index_clamped(),
    {
        self.select(min_usize(self.current_index, self.entries.len().saturating_sub(1)));
    }

    /// Starts a new generation of rendered media.
    pub fn bump_generation(&mut self)
        ensures
            final(self)@ == old(self)@.next_generation(),
    {
        self.thumbnail_generation = self.thumbnail_generation.wrapping_add(1);
        self.eager_preview_prefetch = None;
    }

    /// Forgets the sizes that the last frame was laid out with.
    pub fn forget_render_layout(&mut self)
        ensures
            final(self)@ == (StateView {
                last_preview_size: None,
                last_grid_cell_size: None,
                eager_preview_prefetch: None,
                ..old(self)@
            }),
    {
        self.last_preview_size = None;
        self.last_grid_cell_size = None;
        self.eager_preview_prefetch = None;
    }

    /// The indices of the queued entries, in ascending order.
    pub fn queued_indices(&self) -> (indices: Vec<usize>)
        ensures
            indices@ == self@.queued_indices(),
            indices@.no_duplicates(),
    {
        let mut indices: Vec<usize> = Vec::new();
        let mut index: usize = 0;
        while index < self.entries.len()
            invariant
                index <= self.entries@.len(),
                indices@ == queued_among(self@.entries, self@.delete_queue, index as nat),
            decreases self.entries@.len() - index,
        {
            assert(self@.entries[index as int].path == self.entries@[index as int].path@);
            if self.delete_queue.contains(&self.entries[index].path) {
                indices.push(index);
            }
            index += 1;
        }
        proof {
            law_queued_indices(self@.entries, self@.delete_queue, self@.entries.len());
        }
        indices
    }

    /// The position of the selected entry among the queued ones.
    pub fn queue_position(&self) -> (position: Option<usize>)
        ensures
            match position {
                Some(position) => self@.queued_indices().contains(self@.current_index)
                    && position == self@.queued_indices().index_of(self@.current_index),
                None => !self@.queued_indices().contains(self@.current_index),
            },
    {
        let indices = self.queued_indices();
        position_of(&indices, self.current_index)
    }

    /// Shows the delete queue, with a queued entry selected where there is one.
    pub fn enter_delete_queue_grid(&mut self)
        ensures
            final(self)@ == old(self)@.showing_queue(),
    {
        self.mode = ViewMode::DeleteQueueGrid;
        if !self.delete_queue.is_empty() && !self.is_queued_current() {
            let indices = self.queued_indices();
            if indices.len() > 0 {
                self.current_index = indices[0];
            }
        }
        proof {
            if old(self)@.delete_queue.len() == 0 {
                lemma_empty_queue(
                    old(self)@.entries,
                    old(self)@.delete_queue,
                    old(self)@.entries.len(),
                );
            }
        }
        self.sync_grid_page();
    }

    /// Whether the selected entry is marked for deletion.
    pub fn is_queued_current(&self) -> (queued: bool)
        ensures
            queued == self@.current_queued(),
    {
        match self.current_entry() {
            Some(entry) => self.delete_queue.contains(&entry.path),
            None => false,
        }
    }

    /// Turns the grid to the page of the selected entry.
    pub fn sync_grid_page(&mut self)
        ensures
            final(self)@ == old(self)@.page_synced(),
    {
        self.grid_page = if self.last_grid_page_size == 0 {
            0
        } else {
            self.current_index / self.last_grid_page_size
        };
    }
}

/// The position of a number in a list.
fn position_of(indices: &Vec<usize>, index: usize) -> (position: Option<usize>)
    requires
        indices@.no_duplicates(),
    ensures
        match position {
            Some(position) => indices@.contains(index) && position == indices@.index_of(index)
                && position < indices@.len(),
            None => !indices@.contains(index),
        },
{
    let mut at: usize = 0;
    while at < indices.len()
        invariant
            at <= indices@.len(),
            indices@.no_duplicates(),
            forall|i: int| 0 <= i < at ==> indices@[i] != index,
        decreases indices@.len() - at,
    {
        if indices[at] == index {
            assert(indices@[indices@.index_of(index)] == index);
            return Some(at);
        }
        at += 1;
    }
    None
}

impl StateView {
    /// Whether the selection is in the list, and the marks are on listed files, each
    /// once.
    pub open spec fn sound(self) -> bool {
        &&& self.entries.len() <= usize::MAX
        &&& self.entries.len() == 0 ==> self.current_index == 0
        &&& self.entries.len() > 0 ==> self.current_index < self.entries.len()
        &&& self.delete_queue.no_duplicates()
        &&& forall|path: PathNames| #[trigger]
            self.delete_queue.contains(path) ==> lists_path(self.entries, path)
    }
}

/// Moving the selection keeps a state sound, and changes nothing but the selection
/// and the page of the grid.
pub proof fn law_moves_keep_state_sound(state: StateView, step: int)
    requires
        state.sound(),
    ensures
        state.moved(step).sound(),
        state.at_first().sound(),
        state.at_last().sound(),
        state.index_clamped().sound(),
        state.index_clamped().current_index == state.current_index,
        state.moved(step) == (StateView {
            current_index: state.moved(step).current_index,
            grid_page: state.moved(step).grid_page,
            ..state
        }),
{
    law_queued_indices(state.entries, state.delete_queue, state.entries.len());
    let indices = state.queued_indices();
    assert forall|i: int| 0 <= i < indices.len() implies #[trigger] indices[i]
        < state.entries.len() by {
        assert(indices.contains(indices[i]));
    }
    if indices.contains(state.current_index) {
        assert(indices[indices.index_of(state.current_index)] == state.current_index);
    }
}

/// In the view of the delete queue, moving leads to marked files only.
pub proof fn law_queue_view_stays_in_queue(state: StateView, step: int)
    requires
        state.sound(),
        state.mode == ViewMode::DeleteQueueGrid,
        state.delete_queue.len() > 0,
    ensures
        state.moved(step).current_queued(),
        state.at_first().current_queued(),
        state.at_last().current_queued(),
        state.showing_queue().current_queued(),
{
    law_queued_indices(state.entries, state.delete_queue, state.entries.len());
    let indices = state.queued_indices();
    assert(state.delete_queue.contains(state.delete_queue[0]));
    assert(lists_path(state.entries, state.delete_queue[0]));
    let some = choose|i: int|
        0 <= i < state.entries.len() && (#[trigger] state.entries[i]).path
            == state.delete_queue[0];
    assert(indices.contains(some as usize));
    assert forall|i: int| 0 <= i < indices.len() implies #[trigger] indices[i]
        < state.entries.len() && state.delete_queue.contains(
        state.entries[indices[i] as int].path,
    ) by {
        assert(indices.contains(indices[i]));
    }
    if indices.contains(state.current_index) {
        assert(indices[indices.index_of(state.current_index)] == state.current_index);
    }
}

/// Marking and unmarking keep a state sound, and switch the mark of the selected
/// file alone.
pub proof fn law_marks_keep_state_sound(state: StateView)
    requires
        state.sound(),
    ensures
        state.queue_toggled().sound(),
        state.unqueued().sound(),
        state.entries.len() > 0 ==> state.queue_toggled().current_queued()
            == !state.current_queued(),
        !state.unqueued().current_queued(),
        forall|path: PathNames|
            state.current_path() != Some(path) ==> (
            #[trigger] state.queue_toggled().delete_queue.contains(path)
                == state.delete_queue.contains(path)),
{
    match state.current_path() {
        Some(path) => {
            crate::queue::lemma_removed_distinct(state.delete_queue, path);
            let pushed = state.delete_queue.push(path);
            assert(pushed[state.delete_queue.len() as int] == path);
            assert(lists_path(state.entries, path)) by {
                assert(state.entries[state.current_index as int].path == path);
            }
            assert forall|other: PathNames| other != path implies (#[trigger] pushed.contains(other)
                == state.delete_queue.contains(other)) by {
                if state.delete_queue.contains(other) {
                    let i = state.delete_queue.index_of(other);
                    assert(pushed[i] == other);
                }
                if pushed.contains(other) {
                    let i = pushed.index_of(other);
                    assert(state.delete_queue[i] == other);
                }
            }
        },
        None => {},
    }
}

/// Switching the mark of a file twice leaves it as it was: an unmarked file leaves
/// the queue untouched, a marked one goes to its end.
pub proof fn law_toggling_twice_restores_marks(state: StateView)
    requires
        state.sound(),
    ensures
        state.queue_toggled().queue_toggled().current_queued() == state.current_queued(),
        !state.current_queued() ==> state.queue_toggled().queue_toggled() == state,
        state.queue_toggled().queue_toggled().delete_queue.len() == state.delete_queue.len(),
{
    law_marks_keep_state_sound(state);
    law_marks_keep_state_sound(state.queue_toggled());
    match state.current_path() {
        Some(path) => {
            if !state.delete_queue.contains(path) {
                let pushed = state.delete_queue.push(path);
                assert(pushed[state.delete_queue.len() as int] == path);
                let at = pushed.index_of(path);
                assert(at == state.delete_queue.len()) by {
                    if at < state.delete_queue.len() {
                        assert(state.delete_queue[at] == path);
                    }
                }
                assert(pushed.remove(at) =~= state.delete_queue);
            } else {
                crate::queue::lemma_removed_distinct(state.delete_queue, path);
            }
        },
        None => {},
    }
}

/// A list that replaces the entries keeps a state sound, and keeps the selection on
/// its file where that is still listed.
pub proof fn law_new_entries_keep_selection(
    state: StateView,
    entries: Seq<EntryView>,
    previous: Option<PathNames>,
)
    requires
        state.delete_queue.no_duplicates(),
        entries.len() <= usize::MAX,
    ensures
        state.with_entries(entries, previous).sound(),
        state.with_entries(entries, previous).entries == entries,
        previous matches Some(path) ==> lists_path(entries, path) ==> state.with_entries(
            entries,
            previous,
        ).current_path() == Some(path),
        forall|path: PathNames| #[trigger]
            state.with_entries(entries, previous).delete_queue.contains(path)
                <==> state.delete_queue.contains(path) && lists_path(entries, path),
{
    reveal(StateView::with_entries);
    lemma_filter(state.delete_queue, |path: PathNames| lists_path(entries, path));
    match previous {
        Some(path) => {
            if lists_path(entries, path) {
                lemma_position_exists(entries, path);
            }
        },
        None => {},
    }
}

/// A listed path has a first index.
pub proof fn lemma_position_exists(entries: Seq<EntryView>, path: PathNames)
    requires
        lists_path(entries, path),
    ensures
        entry_position(entries, path) matches Some(index) && first_at(entries, path, index),
{
    let some = choose|i: int| 0 <= i < entries.len() && (#[trigger] entries[i]).path == path;
    lemma_first_entry(entries, path, some);
}

proof fn lemma_first_entry(entries: Seq<EntryView>, path: PathNames, some: int)
    requires
        0 <= some < entries.len(),
        entries[some].path == path,
    ensures
        exists|index: int| first_at(entries, path, index),
    decreases some,
{
    if exists|i: int| 0 <= i < some && (#[trigger] entries[i]).path == path {
        let earlier = choose|i: int| 0 <= i < some && (#[trigger] entries[i]).path == path;
        lemma_first_entry(entries, path, earlier);
    } else {
        assert(first_at(entries, path, some));
    }
}

/// Showing the delete queue keeps a state sound, marks included.
pub proof fn law_showing_queue_keeps_state_sound(state: StateView)
    requires
        state.sound(),
    ensures
        state.showing_queue().sound(),
        state.showing_queue().delete_queue == state.delete_queue,
        state.showing_queue().entries == state.entries,
{
    law_queued_indices(state.entries, state.delete_queue, state.entries.len());
    let indices = state.queued_indices();
    if indices.len() > 0 {
        assert(indices.contains(indices[0]));
    }
}

/// No extension stands for both an image and a video.
pub proof fn law_extensions_name_one_kind(extension: Seq<char>)
    ensures
        image_kind(extension) is Some ==> video_kind(extension) is None,
{
    reveal_strlit("jpg");
    reveal_strlit("jpeg");
    reveal_strlit("png");
    reveal_strlit("webp");
    reveal_strlit("gif");
    reveal_strlit("bmp");
    reveal_strlit("tif");
    reveal_strlit("tiff");
    reveal_strlit("avif");
    reveal_strlit("qoi");
    reveal_strlit("ico");
    reveal_strlit("mp4");
    reveal_strlit("m4v");
    reveal_strlit("mov");
    reveal_strlit("mkv");
    reveal_strlit("webm");
    reveal_strlit("avi");
    reveal_strlit("mpg");
    reveal_strlit("mpeg");
    reveal_strlit("m2v");
    reveal_strlit("ts");
    reveal_strlit("m2ts");
    reveal_strlit("mts");
    reveal_strlit("wmv");
    reveal_strlit("flv");
    reveal_strlit("3gp");
    reveal_strlit("3g2");
    reveal_strlit("ogv");
    assert("jpg"@ =~= seq!['j', 'p', 'g']);
    assert("jpeg"@ =~= seq!['j', 'p', 'e', 'g']);
    assert("png"@ =~= seq!['p', 'n', 'g']);
    assert("webp"@ =~= seq!['w', 'e', 'b', 'p']);
    assert("gif"@ =~= seq!['g', 'i', 'f']);
    assert("bmp"@ =~= seq!['b', 'm', 'p']);
    assert("tif"@ =~= seq!['t', 'i', 'f']);
    assert("tiff"@ =~= seq!['t', 'i', 'f', 'f']);
    assert("avif"@ =~= seq!['a', 'v', 'i', 'f']);
    assert("qoi"@ =~= seq!['q', 'o', 'i']);
    assert("ico"@ =~= seq!['i', 'c', 'o']);
    assert("mp4"@ =~= seq!['m', 'p', '4']);
    assert("m4v"@ =~= seq!['m', '4', 'v']);
    assert("mov"@ =~= seq!['m', 'o', 'v']);
    assert("mkv"@ =~= seq!['m', 'k', 'v']);
    assert("webm"@ =~= seq!['w', 'e', 'b', 'm']);
    assert("avi"@ =~= seq!['a', 'v', 'i']);
    assert("mpg"@ =~= seq!['m', 'p', 'g']);
    assert("mpeg"@ =~= seq!['m', 'p', 'e', 'g']);
    assert("m2v"@ =~= seq!['m', '2', 'v']);
    assert("ts"@ =~= seq!['t', 's']);
    assert("m2ts"@ =~= seq!['m', '2', 't', 's']);
    assert("mts"@ =~= seq!['m', 't', 's']);
    assert("wmv"@ =~= seq!['w', 'm', 'v']);
    assert("flv"@ =~= seq!['f', 'l', 'v']);
    assert("3gp"@ =~= seq!['3', 'g', 'p']);
    assert("3g2"@ =~= seq!['3', 'g', '2']);
    assert("ogv"@ =~= seq!['o', 'g', 'v']);
    if image_kind(extension) is Some && video_kind(extension) is Some {
        let first = extension[0];
        let second = extension[1];
        let third = extension[2];
        let fourth = extension[3];
        assert(first == extension[0] && second == extension[1] && third == extension[2]
            && fourth == extension[3]);
    }
}

/// The kinds of media that the supported extensions stand for.
#[verifier::rlimit(60)]
pub proof fn law_supported_formats()
    ensures
        media_kind("jpg"@) == Some(MediaKind::Image(ImageKind::Jpeg)),
        media_kind("jpeg"@) == Some(MediaKind::Image(ImageKind::Jpeg)),
        media_kind("png"@) == Some(MediaKind::Image(ImageKind::Png)),
        media_kind("webp"@) == Some(MediaKind::Image(ImageKind::WebP)),
        media_kind("gif"@) == Some(MediaKind::Image(ImageKind::Gif)),
        media_kind("bmp"@) == Some(MediaKind::Image(ImageKind::Bmp)),
        media_kind("tif"@) == Some(MediaKind::Image(ImageKind::Tiff)),
        media_kind("tiff"@) == Some(MediaKind::Image(ImageKind::Tiff)),
        media_kind("avif"@) == Some(MediaKind::Image(ImageKind::Avif)),
        media_kind("qoi"@) == Some(MediaKind::Image(ImageKind::Qoi)),
        media_kind("ico"@) == Some(MediaKind::Image(ImageKind::Ico)),
        media_kind("mp4"@) == Some(MediaKind::Video(VideoKind::Mp4)),
        media_kind("m4v"@) == Some(MediaKind::Video(VideoKind::M4v)),
        media_kind("mov"@) == Some(MediaKind::Video(VideoKind::Mov)),
        media_kind("mkv"@) == Some(MediaKind::Video(VideoKind::Mkv)),
        media_kind("webm"@) == Some(MediaKind::Video(VideoKind::WebM)),
        media_kind("avi"@) == Some(MediaKind::Video(VideoKind::Avi)),
        media_kind("mpg"@) == Some(MediaKind::Video(VideoKind::Mpeg)),
        media_kind("mpeg"@) == Some(MediaKind::Video(VideoKind::Mpeg)),
        media_kind("m2v"@) == Some(MediaKind::Video(VideoKind::M2v)),
        media_kind("ts"@) == Some(MediaKind::Video(VideoKind::TransportStream)),
        media_kind("m2ts"@) == Some(MediaKind::Video(VideoKind::TransportStream)),
        media_kind("mts"@) == Some(MediaKind::Video(VideoKind::TransportStream)),
        media_kind("wmv"@) == Some(MediaKind::Video(VideoKind::Wmv)),
        media_kind("flv"@) == Some(MediaKind::Video(VideoKind::Flv)),
        media_kind("3gp"@) == Some(MediaKind::Video(VideoKind::ThreeGp)),
        media_kind("3g2"@) == Some(MediaKind::Video(VideoKind::ThreeGp)),
        media_kind("ogv"@) == Some(MediaKind::Video(VideoKind::Ogv)),
{
    reveal_strlit("jpg");
    reveal_strlit("jpeg");
    reveal_strlit("png");
    reveal_strlit("webp");
    reveal_strlit("gif");
    reveal_strlit("bmp");
    reveal_strlit("tif");
    reveal_strlit("tiff");
    reveal_strlit("avif");
    reveal_strlit("qoi");
    reveal_strlit("ico");
    reveal_strlit("mp4");
    reveal_strlit("m4v");
    reveal_strlit("mov");
    reveal_strlit("mkv");
    reveal_strlit("webm");
    reveal_strlit("avi");
    reveal_strlit("mpg");
    reveal_strlit("mpeg");
    reveal_strlit("m2v");
    reveal_strlit("ts");
    reveal_strlit("m2ts");
    reveal_strlit("mts");
    reveal_strlit("wmv");
    reveal_strlit("flv");
    reveal_strlit("3gp");
    reveal_strlit("3g2");
    reveal_strlit("ogv");
    assert("jpg"@ =~= seq!['j', 'p', 'g']);
    assert("jpeg"@ =~= seq!['j', 'p', 'e', 'g']);
    assert("png"@ =~= seq!['p', 'n', 'g']);
    assert("webp"@ =~= seq!['w', 'e', 'b', 'p']);
    assert("gif"@ =~= seq!['g', 'i', 'f']);
    assert("bmp"@ =~= seq!['b', 'm', 'p']);
    assert("tif"@ =~= seq!['t', 'i', 'f']);
    assert("tiff"@ =~= seq!['t', 'i', 'f', 'f']);
    assert("avif"@ =~= seq!['a', 'v', 'i', 'f']);
    assert("qoi"@ =~= seq!['q', 'o', 'i']);
    assert("ico"@ =~= seq!['i', 'c', 'o']);
    assert("mp4"@ =~= seq!['m', 'p', '4']);
    assert("m4v"@ =~= seq!['m', '4', 'v']);
    assert("mov"@ =~= seq!['m', 'o', 'v']);
    assert("mkv"@ =~= seq!['m', 'k', 'v']);
    assert("webm"@ =~= seq!['w', 'e', 'b', 'm']);
    assert("avi"@ =~= seq!['a', 'v', 'i']);
    assert("mpg"@ =~= seq!['m', 'p', 'g']);
    assert("mpeg"@ =~= seq!['m', 'p', 'e', 'g']);
    assert("m2v"@ =~= seq!['m', '2', 'v']);
    assert("ts"@ =~= seq!['t', 's']);
    assert("m2ts"@ =~= seq!['m', '2', 't', 's']);
    assert("mts"@ =~= seq!['m', 't', 's']);
    assert("wmv"@ =~= seq!['w', 'm', 'v']);
    assert("flv"@ =~= seq!['f', 'l', 'v']);
    assert("3gp"@ =~= seq!['3', 'g', 'p']);
    assert("3g2"@ =~= seq!['3', 'g', '2']);
    assert("ogv"@ =~= seq!['o', 'g', 'v']);
}

/// No other extension stands for media.
pub proof fn law_other_extensions_are_no_media(extension: Seq<char>)
    requires
        extension != "jpg"@,
        extension != "jpeg"@,
        extension != "png"@,
        extension != "webp"@,
        extension != "gif"@,
        extension != "bmp"@,
        extension != "tif"@,
        extension != "tiff"@,
        extension != "avif"@,
        extension != "qoi"@,
        extension != "ico"@,
        extension != "mp4"@,
        extension != "m4v"@,
        extension != "mov"@,
        extension != "mkv"@,
        extension != "webm"@,
        extension != "avi"@,
        extension != "mpg"@,
        extension != "mpeg"@,
        extension != "m2v"@,
        extension != "ts"@,
        extension != "m2ts"@,
        extension != "mts"@,
        extension != "wmv"@,
        extension != "flv"@,
        extension != "3gp"@,
        extension != "3g2"@,
        extension != "ogv"@,
    ensures
        media_kind(extension) is None,
{
}

/// Where in the list of marked entries two of them stand, and what is next to the first.
pub proof fn lemma_marks_rise(state: StateView, at: int, j: int)
    requires
        state.entries.len() <= usize::MAX,
        0 <= at < state.entries.len(),
        0 <= j < state.entries.len(),
        state.delete_queue.contains(state.entries[at].path),
        state.delete_queue.contains(state.entries[j].path),
    ensures
        ({
            let indices = state.queued_indices();
            let p = indices.index_of(at as usize);
            &&& indices.contains(at as usize)
            &&& 0 <= p < indices.len() && indices[p] == at
            &&& indices.first() <= j <= indices.last()
            &&& j > at ==> p + 1 < indices.len() && at < indices[p + 1] <= j
            &&& j < at ==> p > 0 && j <= indices[p - 1] < at
            &&& p + 1 < indices.len() ==> indices[p + 1] > at
            &&& p > 0 ==> indices[p - 1] < at
            &&& forall|k: int|
                0 <= k < indices.len() ==> #[trigger] indices[k] < state.entries.len()
        }),
{
    let indices = state.queued_indices();
    law_queued_indices(state.entries, state.delete_queue, state.entries.len());
    assert(indices.contains(at as usize) && indices.contains(j as usize));
    let p = indices.index_of(at as usize);
    let q = indices.index_of(j as usize);
    assert(indices[p] == at && indices[q] == j);
    if 0 < q {
        assert(indices[0] < indices[q]);
    }
    if q < indices.len() - 1 {
        assert(indices[q] < indices[indices.len() - 1]);
    }
    if p + 1 < indices.len() {
        assert(indices[p] < indices[p + 1]);
    }
    if p > 0 {
        assert(indices[p - 1] < indices[p]);
    }
    if j > at {
        if q < p {
            assert(indices[q] < indices[p]);
        }
        if p + 1 < q {
            assert(indices[p + 1] < indices[q]);
        }
    }
    if j < at {
        if p < q {
            assert(indices[p] < indices[q]);
        }
        if q < p - 1 {
            assert(indices[q] < indices[p - 1]);
        }
    }
    assert forall|k: int| 0 <= k < indices.len() implies #[trigger] indices[k]
        < state.entries.len() by {
        assert(indices.contains(indices[k]));
    }
}

/// In the view of the delete queue the selection moves from one marked file to the next or
/// the previous one, leaving out none, and stops at the first and the last; the view opens
/// on the selected file where it is marked.
pub proof fn law_queue_view_leaves_out_no_mark(state: StateView, j: int)
    requires
        state.sound(),
        state.mode == ViewMode::DeleteQueueGrid,
        state.current_queued(),
        0 <= j < state.entries.len(),
        state.delete_queue.contains(state.entries[j].path),
    ensures
        ({
            let at = state.current_index as int;
            &&& state.moved(1).current_index >= at
            &&& state.moved(-1).current_index <= at
            &&& j > at ==> at < state.moved(1).current_index <= j
            &&& j < at ==> j <= state.moved(-1).current_index < at
            &&& state.at_first().current_index <= j <= state.at_last().current_index
            &&& state.showing_queue().current_index == at
            &&& state.moved(1).delete_queue == state.delete_queue
            &&& state.moved(-1).delete_queue == state.delete_queue
        }),
{
    lemma_marks_rise(state, state.current_index as int, j);
}

/// The view of the delete queue opens on the first marked file where the selected one is not
/// marked.
pub proof fn law_queue_view_opens_on_a_mark(state: StateView, j: int)
    requires
        state.sound(),
        !state.current_queued(),
        0 <= j < state.entries.len(),
        state.delete_queue.contains(state.entries[j].path),
    ensures
        state.showing_queue().current_index <= j,
        state.delete_queue.contains(
            state.entries[state.showing_queue().current_index as int].path,
        ),
        state.showing_queue().mode == ViewMode::DeleteQueueGrid,
        state.showing_queue().delete_queue == state.delete_queue,
{
    lemma_marks_rise(state, j, j);
    let indices = state.queued_indices();
    law_queued_indices(state.entries, state.delete_queue, state.entries.len());
    assert(indices.contains(indices[0]));
}

/// A selected file that is no longer listed leaves the selection at its place, or on the
/// last entry; and what was rendered for the list before is not taken for the new one.
pub proof fn law_a_lost_selection_keeps_its_place(
    state: StateView,
    entries: Seq<EntryView>,
    previous: Option<PathNames>,
)
    requires
        0 < entries.len() <= usize::MAX,
        previous matches Some(path) ==> !lists_path(entries, path),
    ensures
        state.current_index < entries.len() ==> state.with_entries(entries, previous).current_index
            == state.current_index,
        state.current_index >= entries.len() ==> state.with_entries(
            entries,
            previous,
        ).current_index == entries.len() - 1,
        state.with_entries(entries, previous).thumbnail_generation != state.thumbnail_generation,
        state.with_entries(entries, previous).mode == state.mode,
{
    reveal(StateView::with_entries);
    if let Some(path) = previous {
        if entry_position(entries, path) is Some {
            let index = entry_position(entries, path).unwrap();
            assert(first_at(entries, path, index));
            assert(entries[index].path == path);
        }
    }
}

} // verus!
