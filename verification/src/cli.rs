//! The options of a session.

use vstd::prelude::*;

use crate::path::MediaPath;
use crate::state::{image_kind, media_kind, video_kind, MediaKind, MediaMode, SortMode};
use crate::text::{
    has_text, lowercase, normal_extension, normalize_extension, pieces, split, text_of, texts_of,
    to_lowercase,
};

verus! {

/// The options of a session, as they were given.
#[derive(Debug)]
pub struct Cli {
    /// Media file or directory to open. A file opens its folder positioned on it.
    pub path: Option<MediaPath>,
    pub directory: Option<MediaPath>,
    pub recursive: bool,
    pub file_ext: Option<String>,
    pub media: CliMediaMode,
    pub sort: Option<CliSortMode>,
    pub locale: Option<String>,
    pub dry_run_delete: bool,
    pub hidden: bool,
}

#[derive(Debug, Clone, Copy, PartialEq, Eq, Structural)]
pub enum CliSortMode {
    Newest,
    Oldest,
    Name,
    NameDesc,
}

/// The view that a session opens with.
#[derive(Debug, Clone, Copy, PartialEq, Eq, Structural)]
pub enum CliView {
    /// The preview of a file, or the grid.
    Auto,
    /// The same beside the file browser.
    Browser,
}

#[derive(Debug, Clone, Copy, PartialEq, Eq, Structural)]
pub enum CliMediaMode {
    Both,
    Image,
    Video,
}

/// What renders images in a terminal.
#[derive(Debug, Clone, Copy, PartialEq, Eq, Structural)]
pub enum BackendChoice {
    Auto,
    Native,
    Chafa,
    Kitty,
    Sixel,
}

impl CliMediaMode {
    /// The media that a scan is limited to.
    pub open spec fn mode(self) -> MediaMode {
        match self {
            CliMediaMode::Both => MediaMode::Both,
            CliMediaMode::Image => MediaMode::Image,
            CliMediaMode::Video => MediaMode::Video,
        }
    }
}

impl From<CliMediaMode> for MediaMode {
    fn from(value: CliMediaMode) -> (mode: MediaMode) {
        match value {
            CliMediaMode::Both => MediaMode::Both,
            CliMediaMode::Image => MediaMode::Image,
            CliMediaMode::Video => MediaMode::Video,
        }
    }
}

impl vstd::std_specs::convert::FromSpecImpl<CliMediaMode> for MediaMode {
    open spec fn obeys_from_spec() -> bool {
        true
    }

    open spec fn from_spec(value: CliMediaMode) -> MediaMode {
        value.mode()
    }
}

/// The extensions of images.
pub open spec fn image_extensions() -> Seq<Seq<char>> {
    seq![
        "jpg"@,
        "jpeg"@,
        "png"@,
        "webp"@,
        "gif"@,
        "bmp"@,
        "tiff"@,
        "tif"@,
        "avif"@,
        "qoi"@,
        "ico"@,
    ]
}

/// The extensions of videos.
pub open spec fn video_extensions() -> Seq<Seq<char>> {
    seq![
        "mp4"@,
        "m4v"@,
        "mov"@,
        "mkv"@,
        "webm"@,
        "avi"@,
        "mpg"@,
        "mpeg"@,
        "m2v"@,
        "ts"@,
        "m2ts"@,
        "mts"@,
        "wmv"@,
        "flv"@,
        "3gp"@,
        "3g2"@,
        "ogv"@,
    ]
}

/// The extensions of the media in a mode.
pub open spec fn mode_extensions(mode: MediaMode) -> Seq<Seq<char>> {
    match mode {
        MediaMode::Both => image_extensions() + video_extensions(),
        MediaMode::Image => image_extensions(),
        MediaMode::Video => video_extensions(),
    }
}

fn image_list() -> (list: Vec<String>)
    ensures
        texts_of(list@) == image_extensions(),
{
    let list = vec![
        "jpg".to_owned(),
        "jpeg".to_owned(),
        "png".to_owned(),
        "webp".to_owned(),
        "gif".to_owned(),
        "bmp".to_owned(),
        "tiff".to_owned(),
        "tif".to_owned(),
        "avif".to_owned(),
        "qoi".to_owned(),
        "ico".to_owned(),
    ];
    assert(texts_of(list@) =~= image_extensions());
    list
}

fn video_list() -> (list: Vec<String>)
    ensures
        texts_of(list@) == video_extensions(),
{
    let list = vec![
        "mp4".to_owned(),
        "m4v".to_owned(),
        "mov".to_owned(),
        "mkv".to_owned(),
        "webm".to_owned(),
        "avi".to_owned(),
        "mpg".to_owned(),
        "mpeg".to_owned(),
        "m2v".to_owned(),
        "ts".to_owned(),
        "m2ts".to_owned(),
        "mts".to_owned(),
        "wmv".to_owned(),
        "flv".to_owned(),
        "3gp".to_owned(),
        "3g2".to_owned(),
        "ogv".to_owned(),
    ];
    assert(texts_of(list@) =~= video_extensions());
    list
}

/// The extensions that are scanned for by default.
pub fn default_extensions() -> (extensions: Vec<String>)
    ensures
        texts_of(extensions@) == mode_extensions(MediaMode::Both),
{
    default_extensions_for(MediaMode::Both)
}

/// The extensions that are scanned for in a mode.
pub fn default_extensions_for(media_mode: MediaMode) -> (extensions: Vec<String>)
    ensures
        texts_of(extensions@) == mode_extensions(media_mode),
{
    media_mode.default_extensions()
}

impl MediaMode {
    /// The extensions that are scanned for in this mode.
    pub fn default_extensions(self) -> (extensions: Vec<String>)
        ensures
            texts_of(extensions@) == mode_extensions(self),
    {
        match self {
            MediaMode::Both => {
                let mut extensions = image_list();
                let mut videos = video_list();
                extensions.append(&mut videos);
                assert(texts_of(extensions@) =~= mode_extensions(self));
                extensions
            },
            MediaMode::Image => image_list(),
            MediaMode::Video => video_list(),
        }
    }

    /// Whether an extension, in any form, is one of the media of this mode.
    pub open spec fn allows(self, extension: Seq<char>) -> bool {
        mode_extensions(self).contains(lowercase(normal_extension(extension)))
    }

    /// Whether an extension, in any form, is one of the media of this mode.
    pub fn allows_extension(self, ext: &str) -> (allowed: bool)
        ensures
            allowed == self.allows(ext@),
    {
        let ext = normalize_extension(ext);
        proof {
            let name = lowercase(ext@);
            let all = image_extensions() + video_extensions();
            if image_extensions().contains(name) {
                let i = image_extensions().index_of(name);
                assert(all[i] == name);
            }
            if video_extensions().contains(name) {
                let i = video_extensions().index_of(name);
                assert(all[image_extensions().len() + i] == name);
            }
            if all.contains(name) {
                let i = all.index_of(name);
                if i < image_extensions().len() {
                    assert(image_extensions()[i] == name);
                } else {
                    assert(video_extensions()[i - image_extensions().len()] == name);
                }
            }
        }
        match self {
            MediaMode::Both => is_image_extension(ext.as_str()) || is_video_extension(
                ext.as_str(),
            ),
            MediaMode::Image => is_image_extension(ext.as_str()),
            MediaMode::Video => is_video_extension(ext.as_str()),
        }
    }
}

/// Whether an extension, in any ASCII case, is that of an image.
pub fn is_image_extension(ext: &str) -> (yes: bool)
    ensures
        yes == image_extensions().contains(lowercase(ext@)),
{
    has_text(&image_list(), to_lowercase(ext).as_str())
}

/// Whether an extension, in any ASCII case, is that of a video.
pub fn is_video_extension(ext: &str) -> (yes: bool)
    ensures
        yes == video_extensions().contains(lowercase(ext@)),
{
    has_text(&video_list(), to_lowercase(ext).as_str())
}

/// Those of a list of extensions, in their normal form, that a mode allows.
pub open spec fn allowed_among(given: Seq<Seq<char>>, mode: MediaMode) -> Seq<Seq<char>>
    decreases given.len(),
{
    if given.len() == 0 {
        Seq::empty()
    } else {
        let front = allowed_among(given.drop_last(), mode);
        let name = normal_extension(given.last());
        if name.len() > 0 && mode.allows(name) {
            front.push(name)
        } else {
            front
        }
    }
}

impl Cli {
    /// The extensions to scan for: those given, as far as the media mode allows
    /// them, else all of the mode.
    pub open spec fn extensions(self) -> Seq<Seq<char>> {
        match text_of(self.file_ext) {
            Some(raw) => allowed_among(pieces(raw, ','), self.media.mode()),
            None => mode_extensions(self.media.mode()),
        }
    }

    /// The extensions to scan for.
    pub fn resolved_extensions(&self) -> (extensions: Vec<String>)
        ensures
            texts_of(extensions@) == self.extensions(),
    {
        let media_mode = MediaMode::from(self.media);
        match &self.file_ext {
            None => default_extensions_for(media_mode),
            Some(raw) => {
                let parts = split(raw.as_str(), ',');
                let ghost all = texts_of(parts@);
                let mut extensions: Vec<String> = Vec::new();
                let mut index: usize = 0;
                assert(all.take(0) =~= Seq::empty());
                assert(texts_of(extensions@) =~= Seq::empty());
                while index < parts.len()
                    invariant
                        all == texts_of(parts@),
                        index <= all.len(),
                        texts_of(extensions@) == allowed_among(all.take(index as int), media_mode),
                    decreases all.len() - index,
                {
                    let name = normalize_extension(parts[index].as_str());
                    let ghost before = texts_of(extensions@);
                    assert(all.take(index + 1).drop_last() =~= all.take(index as int));
                    assert(all.take(index + 1).last() == parts@[index as int]@);
                    if !crate::text::chars_of(name.as_str()).is_empty()
                        && media_mode.allows_extension(name.as_str()) {
                        extensions.push(name);
                        assert(texts_of(extensions@) =~= before.push(name@));
                    }
                    index += 1;
                }
                assert(all.take(index as int) =~= all);
                extensions
            },
        }
    }

    /// The order that a session starts with: as given, else that in which files are found.
    pub open spec fn start_order(self) -> SortMode {
        match self.sort {
            Some(CliSortMode::Newest) => SortMode::Newest,
            Some(CliSortMode::Oldest) => SortMode::Oldest,
            Some(CliSortMode::Name) => SortMode::NameAsc,
            Some(CliSortMode::NameDesc) => SortMode::NameDesc,
            None => SortMode::Discovered,
        }
    }

    /// The order that a session starts with.
    pub fn initial_sort_mode(&self) -> (mode: SortMode)
        ensures
            mode == self.start_order(),
    {
        match self.sort {
            Some(CliSortMode::Newest) => SortMode::Newest,
            Some(CliSortMode::Oldest) => SortMode::Oldest,
            Some(CliSortMode::Name) => SortMode::NameAsc,
            Some(CliSortMode::NameDesc) => SortMode::NameDesc,
            None => SortMode::Discovered,
        }
    }
}

/// The listed extensions are exactly those that stand for a kind of media.
pub proof fn law_listed_extensions_are_known(extension: Seq<char>)
    ensures
        image_extensions().contains(extension) <==> image_kind(extension) is Some,
        video_extensions().contains(extension) <==> video_kind(extension) is Some,
        mode_extensions(MediaMode::Both).contains(extension) <==> media_kind(extension) is Some,
{
    let images = image_extensions();
    let videos = video_extensions();
    let all = images + videos;
    if image_kind(extension) is Some {
        assert(images[0] == extension || images[1] == extension || images[2] == extension
            || images[3] == extension || images[4] == extension || images[5] == extension
            || images[6] == extension || images[7] == extension || images[8] == extension
            || images[9] == extension || images[10] == extension);
    }
    if video_kind(extension) is Some {
        assert(videos[0] == extension || videos[1] == extension || videos[2] == extension
            || videos[3] == extension || videos[4] == extension || videos[5] == extension
            || videos[6] == extension || videos[7] == extension || videos[8] == extension
            || videos[9] == extension || videos[10] == extension || videos[11] == extension
            || videos[12] == extension || videos[13] == extension || videos[14] == extension
            || videos[15] == extension || videos[16] == extension);
    }
    if images.contains(extension) {
        let i = images.index_of(extension);
        assert(all[i] == extension);
    }
    if videos.contains(extension) {
        let i = videos.index_of(extension);
        assert(all[images.len() + i] == extension);
    }
    if all.contains(extension) {
        let i = all.index_of(extension);
        if i < images.len() {
            assert(images[i] == extension);
        } else {
            assert(videos[i - images.len()] == extension);
        }
    }
}

/// Extensions that were given are kept as far as the media mode allows them: none
/// is scanned for that the mode does not allow, and none is empty.
pub proof fn law_given_extensions_are_allowed(given: Seq<Seq<char>>, mode: MediaMode, i: int)
    requires
        0 <= i < allowed_among(given, mode).len(),
    ensures
        mode.allows(allowed_among(given, mode)[i]),
        allowed_among(given, mode)[i].len() > 0,
    decreases given.len(),
{
    if given.len() > 0 {
        let front = allowed_among(given.drop_last(), mode);
        if i < front.len() {
            law_given_extensions_are_allowed(given.drop_last(), mode, i);
        }
    }
}

/// A session starts in the order that was asked for, and in that of the scan where none was.
pub proof fn law_sessions_start_in_the_given_order(cli: Cli)
    ensures
        cli.sort is None <==> cli.start_order() == SortMode::Discovered,
        cli.sort == Some(CliSortMode::Newest) <==> cli.start_order() == SortMode::Newest,
        cli.sort == Some(CliSortMode::Oldest) <==> cli.start_order() == SortMode::Oldest,
        cli.sort == Some(CliSortMode::Name) <==> cli.start_order() == SortMode::NameAsc,
        cli.sort == Some(CliSortMode::NameDesc) <==> cli.start_order() == SortMode::NameDesc,
{
}

/// A mode allows an extension, in any form, where it stands for media of the mode: images,
/// videos, or either.
pub proof fn law_modes_allow_their_media(extension: Seq<char>)
    ensures
        ({
            let name = lowercase(normal_extension(extension));
            &&& MediaMode::Image.allows(extension) <==> (media_kind(name) matches Some(
                MediaKind::Image(_),
            ))
            &&& MediaMode::Video.allows(extension) <==> (media_kind(name) matches Some(
                MediaKind::Video(_),
            ))
            &&& MediaMode::Both.allows(extension) <==> media_kind(name) is Some
        }),
        CliMediaMode::Both.mode() == MediaMode::Both,
        CliMediaMode::Image.mode() == MediaMode::Image,
        CliMediaMode::Video.mode() == MediaMode::Video,
{
    let name = lowercase(normal_extension(extension));
    law_listed_extensions_are_known(name);
    if image_kind(name) is Some && video_kind(name) is Some {
        lemma_no_extension_is_both(name);
    }
}

proof fn lemma_no_extension_is_both(name: Seq<char>)
    ensures
        image_kind(name) is None || video_kind(name) is None,
{
    crate::state::law_supported_formats();
}

/// Every extension that was given and that the mode allows is scanned for, in its normal
/// form and in the order given: extensions are taken one by one.
pub proof fn law_given_extensions_are_taken_one_by_one(
    given: Seq<Seq<char>>,
    extension: Seq<char>,
    mode: MediaMode,
)
    ensures
        allowed_among(Seq::empty(), mode) == Seq::<Seq<char>>::empty(),
        normal_extension(extension).len() > 0 && mode.allows(normal_extension(extension))
            ==> allowed_among(given.push(extension), mode) == allowed_among(given, mode).push(
            normal_extension(extension),
        ),
        normal_extension(extension).len() == 0 || !mode.allows(normal_extension(extension))
            ==> allowed_among(given.push(extension), mode) == allowed_among(given, mode),
{
    assert(given.push(extension).drop_last() =~= given);
}

/// Without a list of extensions, a session looks for all media of its mode; with one, for
/// those of its pieces, between commas, that the mode allows.
pub proof fn law_extensions_are_those_given(cli: Cli)
    ensures
        cli.file_ext is None && cli.media == CliMediaMode::Image ==> cli.extensions()
            == image_extensions(),
        cli.file_ext is None && cli.media == CliMediaMode::Video ==> cli.extensions()
            == video_extensions(),
        cli.file_ext is None && cli.media == CliMediaMode::Both ==> cli.extensions()
            == image_extensions() + video_extensions(),
        cli.file_ext matches Some(raw) ==> cli.extensions() == allowed_among(
            pieces(raw@, ','),
            cli.media.mode(),
        ),
{
}

} // verus!
