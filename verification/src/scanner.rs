//! Which of the files that a walk found are media.
//!
//! Walking the file system is outside; here the files found are filtered and
//! turned into entries.

use vstd::prelude::*;

use crate::assoc::Key;
use crate::path::{extension_of, parent_of, MediaPath, PathNames};
use crate::state::{
    entries_of, media_kind, EntryView, FileName, FileNameView, MediaEntry, MediaKind,
};
use crate::text::{
    chars_of, has_text, lowercase, normal_extension, normalize_extension, same_text, text_of,
    texts_of, to_lowercase, utf8_of, utf8_text,
};

verus! {

/// What is scanned.
#[derive(Debug, PartialEq, Eq)]
pub struct ScanOptions {
    pub root: MediaPath,
    pub recursive: bool,
    pub include_hidden: bool,
    pub extensions: Vec<String>,
}

/// The contents of [`ScanOptions`].
pub struct ScanView {
    pub root: PathNames,
    pub recursive: bool,
    pub include_hidden: bool,
    pub extensions: Seq<Seq<char>>,
}

impl View for ScanOptions {
    type V = ScanView;

    open spec fn view(&self) -> ScanView {
        ScanView {
            root: self.root@,
            recursive: self.recursive,
            include_hidden: self.include_hidden,
            extensions: texts_of(self.extensions@),
        }
    }
}

impl Clone for ScanOptions {
    fn clone(&self) -> (copy: Self)
        ensures
            copy@ == self@,
    {
        ScanOptions {
            root: self.root.clone(),
            recursive: self.recursive,
            include_hidden: self.include_hidden,
            extensions: crate::text::texts_copy(&self.extensions),
        }
    }
}

/// What the file system says of a file, symbolic links not followed. Times are
/// nanoseconds since the Unix epoch.
#[derive(Debug, Clone, Copy, PartialEq, Eq, Structural)]
pub struct FoundMetadata {
    pub is_symlink: bool,
    pub is_dir: bool,
    pub is_file: bool,
    pub len: u64,
    pub created: Option<i128>,
    pub modified: Option<i128>,
}

/// A file that a walk found.
#[derive(Debug)]
pub struct FoundFile {
    pub path: MediaPath,
    pub name: FileName,
    /// What the file system says of it; nothing where that cannot be read.
    pub metadata: Option<FoundMetadata>,
    /// The first bytes of the file, where [`needs_probe`] asks for them.
    pub head: Vec<u8>,
}

/// The contents of a [`FoundFile`].
pub struct FoundView {
    pub path: PathNames,
    pub name: FileNameView,
    pub metadata: Option<FoundMetadata>,
    pub head: Seq<u8>,
}

impl View for FoundFile {
    type V = FoundView;

    open spec fn view(&self) -> FoundView {
        FoundView {
            path: self.path@,
            name: self.name@,
            metadata: self.metadata,
            head: self.head@,
        }
    }
}

/// The contents of a list of found files.
pub open spec fn found_of(found: Seq<FoundFile>) -> Seq<FoundView> {
    Seq::new(found.len(), |i: int| found[i]@)
}

/// The number of bytes of an MPEG transport stream packet.
pub const MPEG_TS_PACKET: usize = 188;

/// The byte that an MPEG transport stream packet starts with.
pub const MPEG_TS_SYNC: u8 = 0x47;

/// How many bytes of a file tell whether it is an MPEG transport stream.
pub const MPEG_TS_PROBE_LEN: usize = 377;

/// Whether the first bytes of a file are those of an MPEG transport stream: three
/// packets start with the sync byte.
pub open spec fn mpeg_ts(head: Seq<u8>) -> bool {
    &&& head.len() >= MPEG_TS_PROBE_LEN
    &&& head[0] == MPEG_TS_SYNC
    &&& head[MPEG_TS_PACKET as int] == MPEG_TS_SYNC
    &&& head[2 * MPEG_TS_PACKET] == MPEG_TS_SYNC
}

/// Whether the first bytes of a file are those of an MPEG transport stream.
pub fn looks_like_plain_mpeg_ts(head: &Vec<u8>) -> (yes: bool)
    ensures
        yes == mpeg_ts(head@),
{
    head.len() >= MPEG_TS_PROBE_LEN && head[0] == MPEG_TS_SYNC && head[MPEG_TS_PACKET]
        == MPEG_TS_SYNC && head[2 * MPEG_TS_PACKET] == MPEG_TS_SYNC
}

/// The extension of a path in lowercase, where it is Unicode text.
pub open spec fn lower_extension(path: PathNames) -> Option<Seq<char>> {
    match extension_of(path) {
        Some(bytes) => match utf8_of(bytes) {
            Some(text) => Some(lowercase(text)),
            None => None,
        },
        None => None,
    }
}

/// The extension of a path in lowercase, where it is Unicode text.
pub fn lowercase_extension(path: &MediaPath) -> (extension: Option<String>)
    ensures
        text_of(extension) == lower_extension(path@),
{
    match path.extension() {
        Some(bytes) => match utf8_text(&bytes) {
            Some(text) => Some(to_lowercase(text.as_str())),
            None => None,
        },
        None => None,
    }
}

/// Whether the first bytes of a file decide if it is a video: `.ts` also names
/// TypeScript sources.
pub fn needs_probe(path: &MediaPath) -> (needed: bool)
    ensures
        needed == (lower_extension(path@) == Some("ts"@)),
{
    match lowercase_extension(path) {
        Some(extension) => same_text(extension.as_str(), "ts"),
        None => false,
    }
}

/// The media in a file with an extension, by its name and first bytes.
pub open spec fn probed_kind(extension: Seq<char>, head: Seq<u8>) -> Option<MediaKind> {
    if extension == "ts"@ && !mpeg_ts(head) {
        None
    } else {
        media_kind(lowercase(extension))
    }
}

/// The media in a file with an extension, by its name and first bytes.
pub fn probe_kind(extension: &str, head: &Vec<u8>) -> (kind: Option<MediaKind>)
    ensures
        kind == probed_kind(extension@, head@),
{
    if same_text(extension, "ts") && !looks_like_plain_mpeg_ts(head) {
        return None;
    }
    MediaKind::from_extension(Some(extension))
}

/// Whether a list of extensions, in any form, names one in lowercase.
pub open spec fn extension_listed(extensions: Seq<Seq<char>>, extension: Seq<char>) -> bool {
    extension.len() > 0 && exists|i: int|
        0 <= i < extensions.len() && normal_extension(#[trigger] extensions[i]) == extension
}

/// Whether the texts of a list are the normal forms of a list of extensions,
/// without empty ones.
spec fn normal_list(normal: Seq<Seq<char>>, extensions: Seq<Seq<char>>) -> bool {
    forall|text: Seq<char>| #[trigger]
        normal.contains(text) <==> extension_listed(extensions, text)
}

/// The extensions of a list in their normal form, without empty ones.
fn extension_set(extensions: &Vec<String>) -> (set: Vec<String>)
    ensures
        normal_list(texts_of(set@), texts_of(extensions@)),
{
    let mut set: Vec<String> = Vec::new();
    let mut index: usize = 0;
    let ghost all = texts_of(extensions@);
    while index < extensions.len()
        invariant
            all == texts_of(extensions@),
            index <= all.len(),
            normal_list(texts_of(set@), all.take(index as int)),
        decreases all.len() - index,
    {
        let text = normalize_extension(extensions[index].as_str());
        assert(all[index as int] == extensions@[index as int]@);
        let ghost before = texts_of(set@);
        let ghost part = all.take(index as int);
        let ghost more = all.take(index + 1);
        assert(more[index as int] == all[index as int]);
        if !chars_of(text.as_str()).is_empty() {
            set.push(text);
            assert(texts_of(set@) =~= before.push(text@));
        }
        assert forall|wanted: Seq<char>| #[trigger]
            texts_of(set@).contains(wanted) <==> extension_listed(more, wanted) by {
            if extension_listed(more, wanted) {
                let i = choose|i: int|
                    0 <= i < more.len() && normal_extension(#[trigger] more[i]) == wanted;
                if i < index {
                    assert(part[i] == more[i]);
                    assert(extension_listed(part, wanted));
                    assert(before.contains(wanted));
                    let at = before.index_of(wanted);
                    assert(texts_of(set@)[at] == wanted);
                } else {
                    assert(texts_of(set@)[before.len() as int] == wanted);
                }
            }
            if texts_of(set@).contains(wanted) {
                let at = texts_of(set@).index_of(wanted);
                if at < before.len() {
                    assert(before[at] == wanted);
                    assert(before.contains(wanted));
                    assert(extension_listed(part, wanted));
                    let i = choose|i: int|
                        0 <= i < part.len() && normal_extension(#[trigger] part[i]) == wanted;
                    assert(more[i] == part[i]);
                } else {
                    assert(normal_extension(more[index as int]) == wanted);
                }
            }
        }
        index += 1;
    }
    assert(all.take(index as int) =~= all);
    set
}

/// Whether a file is hidden: its name is text that starts with a dot.
pub open spec fn hidden_name(name: FileNameView) -> bool {
    match name.text {
        Some(text) => text.len() > 0 && text[0] == '.',
        None => false,
    }
}

/// Whether a file is hidden.
pub fn is_hidden_name(name: &FileName) -> (hidden: bool)
    ensures
        hidden == hidden_name(name@),
{
    match &name.text {
        Some(text) => {
            let chars = chars_of(text.as_str());
            chars.len() > 0 && chars[0] == '.'
        },
        None => false,
    }
}

/// The media in a found file: it is a regular file whose extension is listed and
/// known.
pub open spec fn found_kind(found: FoundView, extensions: Seq<Seq<char>>) -> Option<MediaKind> {
    match (found.metadata, lower_extension(found.path)) {
        (Some(metadata), Some(extension)) => if !metadata.is_symlink && metadata.is_file
            && extension_listed(extensions, extension) {
            probed_kind(extension, found.head)
        } else {
            None
        },
        _ => None,
    }
}

/// The entry of a found file, where it is media.
pub open spec fn found_entry(
    found: FoundView,
    discovered_order: usize,
    extensions: Seq<Seq<char>>,
) -> Option<EntryView> {
    match found_kind(found, extensions) {
        Some(media_kind) => Some(
            EntryView {
                path: found.path,
                file_name: found.name,
                display_name: found.name.lossy,
                extension: lower_extension(found.path),
                file_len: found.metadata.unwrap().len,
                created: found.metadata.unwrap().created,
                modified: found.metadata.unwrap().modified,
                discovered_order,
                dimensions: None,
                media_kind,
                exif_date: None,
                exif_orientation: None,
                dimensions_attempted: false,
                exif_attempted: false,
            },
        ),
        None => None,
    }
}

/// The entry of a found file, where it is media. `allowed` holds the listed
/// extensions in their normal form.
fn build_entry(
    found: &FoundFile,
    discovered_order: usize,
    allowed: &Vec<String>,
    extensions: Ghost<Seq<Seq<char>>>,
) -> (entry: Option<MediaEntry>)
    requires
        normal_list(texts_of(allowed@), extensions@),
    ensures
        match entry {
            Some(entry) => found_entry(found@, discovered_order, extensions@) == Some(entry@),
            None => found_entry(found@, discovered_order, extensions@) is None,
        },
{
    let metadata = match found.metadata {
        Some(metadata) => metadata,
        None => {
            return None;
        },
    };
    if metadata.is_symlink || !metadata.is_file {
        return None;
    }
    let extension = match lowercase_extension(&found.path) {
        Some(extension) => extension,
        None => {
            return None;
        },
    };
    if !has_text(allowed, extension.as_str()) {
        return None;
    }
    let media_kind = match probe_kind(extension.as_str(), &found.head) {
        Some(kind) => kind,
        None => {
            return None;
        },
    };
    Some(
        MediaEntry {
            path: found.path.clone(),
            file_name: found.name.clone(),
            display_name: found.name.lossy.clone(),
            extension: Some(extension),
            file_len: metadata.len,
            created: metadata.created,
            modified: metadata.modified,
            discovered_order,
            dimensions: None,
            media_kind,
            exif_date: None,
            exif_orientation: None,
            dimensions_attempted: false,
            exif_attempted: false,
        },
    )
}

/// Whether a name of a path is hidden: it is text that starts with a dot.
pub open spec fn hidden_part(name: Seq<u8>) -> bool {
    match utf8_of(name) {
        Some(text) => text.len() > 0 && text[0] == '.',
        None => false,
    }
}

/// Whether a path leads through something hidden on its way from a root.
pub open spec fn hidden_below(path: PathNames, root: PathNames) -> bool {
    exists|i: int| root.len() <= i < path.len() && hidden_part(#[trigger] path[i])
}

/// Whether a path leads through something hidden on its way from a root.
fn leads_through_hidden(path: &MediaPath, root: &MediaPath) -> (hidden: bool)
    ensures
        hidden == hidden_below(path@, root@),
{
    let mut index: usize = root.names.len();
    while index < path.names.len()
        invariant
            root@.len() <= index,
            path@.len() == path.names@.len(),
            index <= path@.len() || root@.len() == index,
            forall|i: int| root@.len() <= i < index && i < path@.len() ==> !hidden_part(
                #[trigger] path@[i],
            ),
        decreases path.names@.len() - index,
    {
        assert(path@[index as int] == path.names@[index as int]@);
        if let Some(text) = utf8_text(&path.names[index]) {
            let chars = chars_of(text.as_str());
            if chars.len() > 0 && chars[0] == '.' {
                assert(hidden_part(path@[index as int]));
                return true;
            }
        }
        index += 1;
    }
    false
}

/// Whether a scan looks at a found file: below its root, or only right below it
/// where the scan is not recursive; and at hidden files and those in hidden folders
/// only where they are included.
pub open spec fn looks_at(options: ScanView, found: FoundView) -> bool {
    &&& if options.recursive {
        found.path != options.root
    } else {
        parent_of(found.path) == Some(options.root)
    }
    &&& options.include_hidden || !(hidden_name(found.name) || hidden_below(
        found.path,
        options.root,
    ))
}

/// Whether a scan looks at a found file.
fn is_looked_at(options: &ScanOptions, file: &FoundFile) -> (yes: bool)
    ensures
        yes == looks_at(options@, file@),
{
    let placed = if options.recursive {
        !file.path.same(&options.root)
    } else {
        match file.path.parent() {
            Some(parent) => parent.same(&options.root),
            None => false,
        }
    };
    placed && (options.include_hidden || !(is_hidden_name(&file.name) || leads_through_hidden(
        &file.path,
        &options.root,
    )))
}

/// The entries of the media among the first `count` found files that a scan looks
/// at, numbered in the order in which they were found.
pub open spec fn scanned(options: ScanView, found: Seq<FoundView>, count: nat) -> Seq<EntryView>
    decreases count,
{
    if count == 0 {
        Seq::empty()
    } else {
        let front = scanned(options, found, (count - 1) as nat);
        let file = found[count - 1];
        match found_entry(file, front.len() as usize, options.extensions) {
            Some(entry) => if looks_at(options, file) {
                front.push(entry)
            } else {
                front
            },
            None => front,
        }
    }
}

/// The entries of the media in a scanned directory.
pub fn scan_directory(opts: &ScanOptions, found: &Vec<FoundFile>) -> (entries: Vec<MediaEntry>)
    ensures
        entries_of(entries@) == scanned(opts@, found_of(found@), found@.len()),
{
    let allowed = extension_set(&opts.extensions);
    let ghost files = found_of(found@);
    let mut entries: Vec<MediaEntry> = Vec::new();
    let mut index: usize = 0;
    assert(entries_of(entries@) =~= Seq::empty());
    while index < found.len()
        invariant
            files == found_of(found@),
            index <= files.len(),
            normal_list(texts_of(allowed@), opts@.extensions),
            entries_of(entries@) == scanned(opts@, files, index as nat),
            entries@.len() <= index,
        decreases files.len() - index,
    {
        let file = &found[index];
        assert(files[index as int] == file@);
        let ghost before = entries_of(entries@);
        assert(before.len() == entries@.len());
        if is_looked_at(opts, file) {
            match build_entry(file, entries.len(), &allowed, Ghost(opts@.extensions)) {
                Some(entry) => {
                    entries.push(entry);
                    assert(entries_of(entries@) =~= before.push(entry@));
                },
                None => {},
            }
        }
        index += 1;
    }
    entries
}

/// The entries of the media among the first `count` files that were selected
/// explicitly.
pub open spec fn scanned_files(
    extensions: Seq<Seq<char>>,
    found: Seq<FoundView>,
    count: nat,
) -> Seq<EntryView>
    decreases count,
{
    if count == 0 {
        Seq::empty()
    } else {
        let front = scanned_files(extensions, found, (count - 1) as nat);
        match found_entry(found[count - 1], front.len() as usize, extensions) {
            Some(entry) => front.push(entry),
            None => front,
        }
    }
}

/// The entries of the media among files that were selected explicitly, in the
/// order of their selection.
pub fn scan_files(found: &Vec<FoundFile>, extensions: &Vec<String>) -> (entries: Vec<MediaEntry>)
    ensures
        entries_of(entries@) == scanned_files(
            texts_of(extensions@),
            found_of(found@),
            found@.len(),
        ),
{
    let allowed = extension_set(extensions);
    let ghost files = found_of(found@);
    let mut entries: Vec<MediaEntry> = Vec::new();
    let mut index: usize = 0;
    assert(entries_of(entries@) =~= Seq::empty());
    while index < found.len()
        invariant
            files == found_of(found@),
            index <= files.len(),
            normal_list(texts_of(allowed@), texts_of(extensions@)),
            entries_of(entries@) == scanned_files(texts_of(extensions@), files, index as nat),
            entries@.len() <= index,
        decreases files.len() - index,
    {
        let file = &found[index];
        assert(files[index as int] == file@);
        let ghost before = entries_of(entries@);
        assert(before.len() == entries@.len());
        match build_entry(file, entries.len(), &allowed, Ghost(texts_of(extensions@))) {
            Some(entry) => {
                entries.push(entry);
                assert(entries_of(entries@) =~= before.push(entry@));
            },
            None => {},
        }
        index += 1;
    }
    entries
}

/// Whether an entry comes from one of the first `count` found files, and how it may.
pub open spec fn comes_from(
    entry: EntryView,
    options: ScanView,
    found: Seq<FoundView>,
    count: int,
) -> bool {
    exists|i: int|
        0 <= i < count && #[trigger] looks_at(options, found[i]) && found_entry(
            found[i],
            entry.discovered_order,
            options.extensions,
        ) == Some(entry)
}

/// A scan lists only regular files and no symbolic links, whose extension was asked
/// for and is known; hidden ones only where they are included; and it numbers them
/// in order.
pub proof fn law_scan_lists_media_only(
    options: ScanView,
    found: Seq<FoundView>,
    count: nat,
    i: int,
)
    requires
        count <= found.len(),
        found.len() <= usize::MAX,
        0 <= i < scanned(options, found, count).len(),
    ensures
        scanned(options, found, count).len() <= count,
        scanned(options, found, count)[i].discovered_order == i,
        comes_from(scanned(options, found, count)[i], options, found, count as int),
    decreases count,
{
    let front = scanned(options, found, (count - 1) as nat);
    let all = scanned(options, found, count);
    lemma_scan_len(options, found, (count - 1) as nat);
    if i < front.len() {
        law_scan_lists_media_only(options, found, (count - 1) as nat, i);
        assert(all[i] == front[i]);
        let j = choose|j: int|
            0 <= j < count - 1 && #[trigger] looks_at(options, found[j]) && found_entry(
                found[j],
                all[i].discovered_order,
                options.extensions,
            ) == Some(all[i]);
        assert(looks_at(options, found[j]));
    } else {
        assert(looks_at(options, found[count - 1]));
    }
}

proof fn lemma_scan_len(options: ScanView, found: Seq<FoundView>, count: nat)
    ensures
        scanned(options, found, count).len() <= count,
    decreases count,
{
    if count > 0 {
        lemma_scan_len(options, found, (count - 1) as nat);
    }
}

/// A scan lists nothing but its root's contents: no hidden file and none in a hidden
/// folder where they are left out, and files of its root alone where it is not recursive.
pub proof fn law_scan_keeps_to_its_options(
    options: ScanView,
    found: Seq<FoundView>,
    count: nat,
    i: int,
)
    requires
        count <= found.len(),
        found.len() <= usize::MAX,
        0 <= i < scanned(options, found, count).len(),
    ensures
        options.include_hidden || !hidden_name(scanned(options, found, count)[i].file_name),
        options.include_hidden || !hidden_below(
            scanned(options, found, count)[i].path,
            options.root,
        ),
        options.recursive ==> scanned(options, found, count)[i].path != options.root,
        !options.recursive ==> parent_of(scanned(options, found, count)[i].path) == Some(
            options.root,
        ),
{
    law_scan_lists_media_only(options, found, count, i);
}

/// A scan lists no path twice, where the walk found none twice.
pub proof fn law_scan_lists_no_path_twice(
    options: ScanView,
    found: Seq<FoundView>,
    count: nat,
    i: int,
    j: int,
)
    requires
        count <= found.len(),
        found.len() <= usize::MAX,
        forall|a: int, b: int|
            0 <= a < b < found.len() ==> (#[trigger] found[a]).path != (#[trigger] found[b]).path,
        0 <= i < j < scanned(options, found, count).len(),
    ensures
        scanned(options, found, count)[i].path != scanned(options, found, count)[j].path,
    decreases count,
{
    let front = scanned(options, found, (count - 1) as nat);
    if j < front.len() {
        law_scan_lists_no_path_twice(options, found, (count - 1) as nat, i, j);
    } else {
        law_scan_lists_media_only(options, found, (count - 1) as nat, i);
        let a = choose|a: int|
            0 <= a < count - 1 && #[trigger] looks_at(options, found[a]) && found_entry(
                found[a],
                front[i].discovered_order,
                options.extensions,
            ) == Some(front[i]);
        assert(found[a].path != found[count - 1].path);
    }
}

/// Whether a list holds an entry, its number aside.
pub open spec fn lists_file(entries: Seq<EntryView>, entry: EntryView) -> bool {
    exists|j: int|
        0 <= j < entries.len() && (#[trigger] entries[j]) == (EntryView {
            discovered_order: entries[j].discovered_order,
            ..entry
        })
}

/// A scan that is not recursive lists the files right below its root that the
/// recursive one lists, and no others.
pub proof fn law_flat_scan_is_part_of_recursive(
    options: ScanView,
    found: Seq<FoundView>,
    count: nat,
    entry: EntryView,
)
    requires
        count <= found.len(),
        found.len() <= usize::MAX,
    ensures
        lists_file(scanned(ScanView { recursive: false, ..options }, found, count), entry) <==> (
        lists_file(scanned(ScanView { recursive: true, ..options }, found, count), entry)
            && parent_of(entry.path) == Some(options.root)),
    decreases count,
{
    let flat = ScanView { recursive: false, ..options };
    let deep = ScanView { recursive: true, ..options };
    if count > 0 {
        let last = (count - 1) as nat;
        let file = found[count - 1];
        law_flat_scan_is_part_of_recursive(options, found, last, entry);
        lemma_listed_after(flat, found, count, entry);
        lemma_listed_after(deep, found, count, entry);
        if parent_of(file.path) == Some(options.root) {
            assert(file.path.len() == options.root.len() + 1);
        }
    }
}

/// Whether the entry of a found file is an entry, its number aside.
spec fn is_file_of(file: FoundView, options: ScanView, entry: EntryView) -> bool {
    looks_at(options, file) && found_entry(file, entry.discovered_order, options.extensions)
        == Some(entry)
}

proof fn lemma_listed_after(
    options: ScanView,
    found: Seq<FoundView>,
    count: nat,
    entry: EntryView,
)
    requires
        0 < count <= found.len(),
    ensures
        lists_file(scanned(options, found, count), entry) <==> (lists_file(
            scanned(options, found, (count - 1) as nat),
            entry,
        ) || is_file_of(found[count - 1], options, entry)),
{
    let front = scanned(options, found, (count - 1) as nat);
    let all = scanned(options, found, count);
    if lists_file(front, entry) {
        let j = choose|j: int|
            0 <= j < front.len() && (#[trigger] front[j]) == (EntryView {
                discovered_order: front[j].discovered_order,
                ..entry
            });
        assert(all[j] == front[j]);
    }
    if is_file_of(found[count - 1], options, entry) {
        assert(all[front.len() as int].path == entry.path);
    }
    if lists_file(all, entry) {
        let j = choose|j: int|
            0 <= j < all.len() && (#[trigger] all[j]) == (EntryView {
                discovered_order: all[j].discovered_order,
                ..entry
            });
        if j < front.len() {
            assert(front[j] == all[j]);
        }
    }
}

/// What makes a found file media: it is a regular file, its extension was asked for,
/// and it stands for a kind of media; `.ts` files hold transport stream packets.
pub proof fn law_found_media(found: FoundView, extensions: Seq<Seq<char>>)
    requires
        found_kind(found, extensions) is Some,
    ensures
        found.metadata matches Some(metadata) && metadata.is_file && !metadata.is_symlink,
        lower_extension(found.path) matches Some(extension) && extension_listed(
            extensions,
            extension,
        ) && media_kind(lowercase(extension)) == found_kind(found, extensions) && (extension
            == "ts"@ ==> mpeg_ts(found.head)),
{
}

/// Every entry of a scan says of one found file what the file system says: its path and
/// name, its size, when it was created and when it was modified; nothing more is known of
/// it yet.
pub proof fn law_scan_takes_what_the_files_say(
    options: ScanView,
    found: Seq<FoundView>,
    count: nat,
    i: int,
)
    requires
        count <= found.len(),
        found.len() <= usize::MAX,
        0 <= i < scanned(options, found, count).len(),
    ensures
        exists|k: int|
            {
                let entry = scanned(options, found, count)[i];
                &&& 0 <= k < count
                &&& entry.path == (#[trigger] found[k]).path
                &&& entry.file_name == found[k].name
                &&& entry.display_name == found[k].name.lossy
                &&& found[k].metadata matches Some(metadata) && {
                    &&& metadata.is_file && !metadata.is_symlink
                    &&& entry.file_len == metadata.len
                    &&& entry.created == metadata.created
                    &&& entry.modified == metadata.modified
                }
                &&& entry.dimensions is None && entry.exif_date is None
                    && entry.exif_orientation is None
                &&& !entry.dimensions_attempted && !entry.exif_attempted
            },
{
    law_scan_lists_media_only(options, found, count, i);
    let entry = scanned(options, found, count)[i];
    let k = choose|k: int|
        0 <= k < count && #[trigger] looks_at(options, found[k]) && found_entry(
            found[k],
            entry.discovered_order,
            options.extensions,
        ) == Some(entry);
    assert(entry.path == found[k].path);
}

/// Whether a found file is one that a scan is to list, in terms of what is found: it is a
/// regular file and no symbolic link, lies where the scan looks, is not hidden or hidden
/// files are included, and has an extension that was asked for and stands for media.
pub open spec fn to_be_listed(
    options: ScanView,
    file: FoundView,
    extension: Seq<u8>,
    text: Seq<char>,
    kind: MediaKind,
    asked: int,
) -> bool {
    &&& file.metadata matches Some(metadata) && metadata.is_file && !metadata.is_symlink
    &&& options.recursive ==> file.path != options.root
    &&& !options.recursive ==> file.path.len() == options.root.len() + 1 && file.path.drop_last()
        == options.root && file.path.last() != seq![47u8]
    &&& options.include_hidden || !(file.name.text matches Some(name) && name.len() > 0
        && name[0] == '.')
    &&& options.include_hidden || forall|k: int|
        options.root.len() <= k < file.path.len() ==> !(utf8_of(#[trigger] file.path[k]) matches
            Some(name) && name.len() > 0 && name[0] == '.')
    &&& extension_of(file.path) == Some(extension)
    &&& utf8_of(extension) == Some(text)
    &&& text.len() > 0
    &&& 0 <= asked < options.extensions.len()
    &&& normal_extension(options.extensions[asked]) == lowercase(text)
    &&& media_kind(lowercase(text)) == Some(kind)
    &&& lowercase(text) == "ts"@ ==> {
        &&& file.head.len() >= 377
        &&& file.head[0] == 0x47
        &&& file.head[188] == 0x47
        &&& file.head[376] == 0x47
    }
}

/// Every found file that is to be listed is listed, with its kind of media and its
/// extension in lowercase.
pub proof fn law_scan_misses_no_media(
    options: ScanView,
    found: Seq<FoundView>,
    count: nat,
    k: int,
    extension: Seq<u8>,
    text: Seq<char>,
    kind: MediaKind,
    asked: int,
)
    requires
        0 <= k < count <= found.len(),
        to_be_listed(options, found[k], extension, text, kind, asked),
    ensures
        exists|i: int|
            {
                &&& 0 <= i < scanned(options, found, count).len()
                &&& (#[trigger] scanned(options, found, count)[i]).path == found[k].path
                &&& scanned(options, found, count)[i].media_kind == kind
                &&& scanned(options, found, count)[i].extension == Some(lowercase(text))
                &&& scanned(options, found, count)[i].file_len == found[k].metadata.unwrap().len
                &&& scanned(options, found, count)[i].modified
                    == found[k].metadata.unwrap().modified
                &&& scanned(options, found, count)[i].created
                    == found[k].metadata.unwrap().created
            },
    decreases count,
{
    let front = scanned(options, found, (count - 1) as nat);
    let all = scanned(options, found, count);
    if k < count - 1 {
        law_scan_misses_no_media(
            options,
            found,
            (count - 1) as nat,
            k,
            extension,
            text,
            kind,
            asked,
        );
        let i = choose|i: int|
            {
                &&& 0 <= i < front.len()
                &&& (#[trigger] front[i]).path == found[k].path
                &&& front[i].media_kind == kind
                &&& front[i].extension == Some(lowercase(text))
                &&& front[i].file_len == found[k].metadata.unwrap().len
                &&& front[i].modified == found[k].metadata.unwrap().modified
                &&& front[i].created == found[k].metadata.unwrap().created
            };
        assert(all[i] == front[i]);
    } else {
        let file = found[k];
        assert(lower_extension(file.path) == Some(lowercase(text)));
        assert(lowercase(text).len() == text.len());
        assert(extension_listed(options.extensions, lowercase(text))) by {
            assert(normal_extension(options.extensions[asked]) == lowercase(text));
        }
        assert(lowercase(lowercase(text)) =~= lowercase(text));
        assert(hidden_name(file.name) ==> options.include_hidden);
        assert(!options.include_hidden ==> !hidden_below(file.path, options.root));
        if !options.recursive {
            assert(parent_of(file.path) == Some(options.root));
        }
        assert(looks_at(options, file));
        assert(found_kind(file, options.extensions) == Some(kind));
        let last = front.len() as int;
        assert(all[last].path == file.path);
    }
}

/// A scan numbers what it lists from zero on, and lists the files in the order in which
/// they were found.
pub proof fn law_scan_keeps_the_order_of_the_walk(
    options: ScanView,
    found: Seq<FoundView>,
    count: nat,
    i: int,
    j: int,
)
    requires
        count <= found.len(),
        found.len() <= usize::MAX,
        0 <= i < j < scanned(options, found, count).len(),
    ensures
        scanned(options, found, count)[i].discovered_order == i,
        scanned(options, found, count)[j].discovered_order == j,
        exists|a: int, b: int|
            {
                &&& 0 <= a < b < count
                &&& (#[trigger] found[a]).path == scanned(options, found, count)[i].path
                &&& (#[trigger] found[b]).path == scanned(options, found, count)[j].path
            },
    decreases count,
{
    law_scan_lists_media_only(options, found, count, i);
    law_scan_lists_media_only(options, found, count, j);
    let front = scanned(options, found, (count - 1) as nat);
    let all = scanned(options, found, count);
    if j < front.len() {
        law_scan_keeps_the_order_of_the_walk(options, found, (count - 1) as nat, i, j);
        let (a, b) = choose|a: int, b: int|
            {
                &&& 0 <= a < b < count - 1
                &&& (#[trigger] found[a]).path == front[i].path
                &&& (#[trigger] found[b]).path == front[j].path
            };
        assert(all[i] == front[i] && all[j] == front[j]);
        assert(found[a].path == all[i].path && found[b].path == all[j].path);
    } else {
        law_scan_lists_media_only(options, found, (count - 1) as nat, i);
        let a = choose|a: int|
            0 <= a < count - 1 && #[trigger] looks_at(options, found[a]) && found_entry(
                found[a],
                front[i].discovered_order,
                options.extensions,
            ) == Some(front[i]);
        assert(found[a].path == all[i].path);
        assert(found[count - 1].path == all[j].path);
    }
}

/// The selected files that are media are listed in the order of their selection, numbered
/// from zero on, with what the file system says of them; hidden ones too.
pub proof fn law_selected_files_are_listed_in_order(
    extensions: Seq<Seq<char>>,
    found: Seq<FoundView>,
    count: nat,
    i: int,
)
    requires
        count <= found.len(),
        found.len() <= usize::MAX,
        0 <= i < scanned_files(extensions, found, count).len(),
    ensures
        scanned_files(extensions, found, count).len() <= count,
        scanned_files(extensions, found, count)[i].discovered_order == i,
        exists|k: int|
            {
                let entry = scanned_files(extensions, found, count)[i];
                &&& i <= k < count
                &&& entry.path == (#[trigger] found[k]).path
                &&& found[k].metadata matches Some(metadata) && {
                    &&& metadata.is_file && !metadata.is_symlink
                    &&& entry.file_len == metadata.len
                    &&& entry.created == metadata.created
                    &&& entry.modified == metadata.modified
                }
            },
    decreases count,
{
    let front = scanned_files(extensions, found, (count - 1) as nat);
    let all = scanned_files(extensions, found, count);
    lemma_selected_len(extensions, found, (count - 1) as nat);
    if i < front.len() {
        law_selected_files_are_listed_in_order(extensions, found, (count - 1) as nat, i);
        assert(all[i] == front[i]);
        let k = choose|k: int|
            {
                &&& i <= k < count - 1
                &&& front[i].path == (#[trigger] found[k]).path
                &&& found[k].metadata matches Some(metadata) && {
                    &&& metadata.is_file && !metadata.is_symlink
                    &&& front[i].file_len == metadata.len
                    &&& front[i].created == metadata.created
                    &&& front[i].modified == metadata.modified
                }
            };
        assert(all[i].path == found[k].path);
    } else {
        assert(all[i].path == found[count - 1].path);
    }
}

proof fn lemma_selected_len(extensions: Seq<Seq<char>>, found: Seq<FoundView>, count: nat)
    ensures
        scanned_files(extensions, found, count).len() <= count,
    decreases count,
{
    if count > 0 {
        lemma_selected_len(extensions, found, (count - 1) as nat);
    }
}

/// A file named `.ts` is a video only where its first bytes are the start of three packets
/// of 188 bytes each; every other extension is taken at its word.
pub proof fn law_transport_streams_are_probed(extension: Seq<char>, head: Seq<u8>)
    ensures
        extension == "ts"@ ==> (probed_kind(extension, head) is Some <==> head.len() >= 377
            && head[0] == 0x47 && head[188] == 0x47 && head[376] == 0x47),
        extension != "ts"@ ==> probed_kind(extension, head) == media_kind(lowercase(extension)),
{
    reveal_strlit("ts");
    assert("ts"@ =~= seq!['t', 's']);
    assert(lowercase("ts"@) =~= "ts"@);
    crate::state::law_supported_formats();
}

} // verus!
