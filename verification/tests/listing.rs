//! Options, scans, orders, the browser, and the state of a session.

use cullr::assoc::KeyMap;
use cullr::browser::{
    browser_move_index, browser_target_for, left_elided_text, listed_directory_for_target,
    preferred_browser_index, read_browser_entries, read_browser_entries_with_sort_cancellable,
    BrowserEntryKind, BrowserState,
};
use cullr::cli::{
    default_extensions, default_extensions_for, is_image_extension, is_video_extension, Cli,
    CliMediaMode, CliSortMode,
};
use cullr::comparison::Comparison;
use cullr::metadata::{
    ascii_value, effective_date, enrich_entries_for_time_sort, enrich_entry, exif_date_needed,
    exif_from_fields, orientation_for, parse_exif_datetime, read_exif_metadata, time_of_seconds,
    ExifMetadata,
};
use cullr::path::MediaPath;
use cullr::queue::PathSet;
use cullr::scanner::{
    is_hidden_name, looks_like_plain_mpeg_ts, scan_directory, scan_files, FoundFile,
    FoundMetadata, ScanOptions,
};
use cullr::sorter::{next_name_sort, next_time_sort, rank_by_name, sort_entries};
use cullr::state::{
    AppState, FileName, ImageKind, MediaEntry, MediaKind, MediaMode, SortMode, VideoKind, ViewMode,
};

const SECOND: i128 = 1_000_000_000;

fn path(text: &str) -> MediaPath {
    let mut names: Vec<Vec<u8>> = Vec::new();
    if text.starts_with('/') {
        names.push(b"/".to_vec());
    }
    for part in text.split('/') {
        if !part.is_empty() {
            names.push(part.as_bytes().to_vec());
        }
    }
    MediaPath { names }
}

fn name(text: &str) -> FileName {
    FileName { text: Some(text.to_owned()), lossy: text.to_owned(), quoted: format!("{text:?}") }
}

fn entry(file: &str, order: usize) -> MediaEntry {
    MediaEntry {
        path: path(file),
        file_name: name(file),
        display_name: file.to_owned(),
        extension: Some("jpg".to_owned()),
        file_len: 0,
        created: None,
        modified: None,
        discovered_order: order,
        dimensions: None,
        media_kind: MediaKind::Image(ImageKind::Jpeg),
        exif_date: None,
        exif_orientation: None,
        dimensions_attempted: false,
        exif_attempted: false,
    }
}

fn written(file: &str, order: usize, seconds: Option<i128>) -> MediaEntry {
    let mut entry = entry(file, order);
    entry.modified = seconds.map(|seconds| seconds * SECOND);
    entry
}

fn file(text: &str) -> FoundFile {
    let location = path(text);
    let last = text.rsplit('/').next().unwrap();
    FoundFile {
        path: location,
        name: name(last),
        metadata: Some(FoundMetadata {
            is_symlink: false,
            is_dir: false,
            is_file: true,
            len: 20,
            created: None,
            modified: Some(SECOND),
        }),
        head: Vec::new(),
    }
}

fn folder(text: &str) -> FoundFile {
    let mut found = file(text);
    found.metadata = Some(FoundMetadata {
        is_symlink: false,
        is_dir: true,
        is_file: false,
        len: 0,
        created: None,
        modified: None,
    });
    found
}

fn packets() -> Vec<u8> {
    let mut bytes = vec![0u8; 188 * 3];
    for offset in (0..bytes.len()).step_by(188) {
        bytes[offset] = 0x47;
    }
    bytes
}

fn texts(items: &[&str]) -> Vec<String> {
    items.iter().map(|item| (*item).to_owned()).collect()
}

fn options(recursive: bool, extensions: &[&str]) -> ScanOptions {
    ScanOptions {
        root: path("/media"),
        recursive,
        include_hidden: false,
        extensions: texts(extensions),
    }
}

fn state(entries: Vec<MediaEntry>) -> AppState {
    AppState::new(
        path("."),
        false,
        false,
        MediaMode::Image,
        texts(&["jpg"]),
        SortMode::Discovered,
        entries,
    )
}

fn cli(file_ext: Option<&str>, media: CliMediaMode) -> Cli {
    Cli {
        path: None,
        directory: None,
        recursive: false,
        file_ext: file_ext.map(str::to_owned),
        media,
        sort: None,
        locale: None,
        dry_run_delete: false,
        hidden: false,
    }
}

fn shown(entries: &[MediaEntry]) -> Vec<&str> {
    entries.iter().map(|entry| entry.display_name.as_str()).collect()
}

// Options.

#[test]
fn default_extensions_include_images_and_videos() {
    let cli = cli(None, CliMediaMode::Both);

    let extensions = cli.resolved_extensions();

    assert!(extensions.contains(&"jpg".to_owned()));
    assert!(extensions.contains(&"mp4".to_owned()));
}

#[test]
fn media_mode_filters_explicit_extensions() {
    let cli = cli(Some("jpg,mp4,txt"), CliMediaMode::Video);

    assert_eq!(cli.resolved_extensions(), vec!["mp4".to_owned()]);
}

#[test]
fn image_and_video_defaults_are_separate() {
    assert!(!default_extensions_for(MediaMode::Image).contains(&"mp4".to_owned()));
    assert!(!default_extensions_for(MediaMode::Video).contains(&"jpg".to_owned()));
}

#[test]
fn default_lists_name_every_supported_format() {
    assert_eq!(
        default_extensions_for(MediaMode::Image),
        texts(&[
            "jpg", "jpeg", "png", "webp", "gif", "bmp", "tiff", "tif", "avif", "qoi", "ico"
        ])
    );
    assert_eq!(
        default_extensions_for(MediaMode::Video),
        texts(&[
            "mp4", "m4v", "mov", "mkv", "webm", "avi", "mpg", "mpeg", "m2v", "ts", "m2ts", "mts",
            "wmv", "flv", "3gp", "3g2", "ogv"
        ])
    );
    assert_eq!(default_extensions().len(), 28);
    assert_eq!(MediaMode::Both.default_extensions(), default_extensions());
}

#[test]
fn given_extensions_are_trimmed_and_lowered() {
    let cli = cli(Some(" .JPG , Mp4,, .Png"), CliMediaMode::Both);

    assert_eq!(cli.resolved_extensions(), texts(&["jpg", "mp4", "png"]));
}

#[test]
fn every_given_extension_is_of_the_chosen_media() {
    for extension in cli(Some("jpg,mov,PNG,exe"), CliMediaMode::Image).resolved_extensions() {
        assert!(is_image_extension(&extension));
        assert!(!is_video_extension(&extension));
        assert!(MediaMode::Image.allows_extension(&extension));
        assert!(!MediaMode::Video.allows_extension(&extension));
    }
}

#[test]
fn initial_order_follows_the_option() {
    let mut cli = cli(None, CliMediaMode::Both);
    assert_eq!(cli.initial_sort_mode(), SortMode::Discovered);
    cli.sort = Some(CliSortMode::Newest);
    assert_eq!(cli.initial_sort_mode(), SortMode::Newest);
    cli.sort = Some(CliSortMode::NameDesc);
    assert_eq!(cli.initial_sort_mode(), SortMode::NameDesc);
}

#[test]
fn media_option_maps_to_its_mode() {
    assert_eq!(MediaMode::from(CliMediaMode::Both), MediaMode::Both);
    assert_eq!(MediaMode::from(CliMediaMode::Image), MediaMode::Image);
    assert_eq!(MediaMode::from(CliMediaMode::Video), MediaMode::Video);
}

// Scans.

#[test]
fn non_recursive_excludes_subfolders() {
    let found =
        vec![folder("/media/nested"), file("/media/nested/b.jpg"), file("/media/a.jpg")];

    let entries = scan_directory(&options(false, &["jpg"]), &found);

    assert_eq!(entries.len(), 1);
    assert_eq!(entries[0].display_name, "a.jpg");
}

#[test]
fn recursive_includes_subfolders() {
    let found = vec![
        folder("/media"),
        file("/media/a.jpg"),
        folder("/media/nested"),
        file("/media/nested/b.jpg"),
    ];

    let entries = scan_directory(&options(true, &["jpg"]), &found);

    assert_eq!(entries.len(), 2);
}

#[test]
fn hidden_handling_and_extension_filter_work() {
    let found = vec![
        file("/media/.hidden.jpg"),
        file("/media/visible.png"),
        file("/media/ignored.txt"),
    ];

    let entries = scan_directory(&options(false, &["png", "jpg"]), &found);

    assert_eq!(entries.len(), 1);
    assert_eq!(entries[0].display_name, "visible.png");
}

#[test]
fn scans_mixed_image_and_video_extensions() {
    let found = vec![
        file("/media/image.jpg"),
        file("/media/clip.mp4"),
        file("/media/ignored.txt"),
    ];

    let entries = scan_directory(&options(false, &["jpg", "mp4", "txt"]), &found);

    assert_eq!(entries.len(), 2);
    assert!(entries.iter().any(|entry| entry.media_kind.is_image()));
    assert!(entries.iter().any(|entry| entry.media_kind.is_video()));
}

#[test]
fn explicit_extensions_still_require_known_media_kind() {
    let found = vec![file("/media/unknown.custom")];

    let entries = scan_directory(&options(false, &["custom"]), &found);

    assert!(entries.is_empty());
}

#[test]
fn scans_skip_links_and_unreadable_files() {
    let mut link = file("/media/link.jpg");
    link.metadata.as_mut().unwrap().is_symlink = true;
    let mut unreadable = file("/media/gone.jpg");
    unreadable.metadata = None;
    let found = vec![link, unreadable, file("/media/real.JPG")];

    let entries = scan_directory(&options(false, &["jpg"]), &found);

    assert_eq!(shown(&entries), vec!["real.JPG"]);
    assert_eq!(entries[0].extension, Some("jpg".to_owned()));
    assert_eq!(entries[0].discovered_order, 0);
    assert_eq!(entries[0].file_len, 20);
}

#[test]
fn hidden_files_are_listed_where_they_are_asked_for() {
    let mut opts = options(false, &["jpg"]);
    opts.include_hidden = true;

    let entries = scan_directory(&opts, &vec![file("/media/.hidden.jpg")]);

    assert_eq!(shown(&entries), vec![".hidden.jpg"]);
    assert!(is_hidden_name(&name(".hidden.jpg")));
    assert!(!is_hidden_name(&name("visible.jpg")));
}

#[test]
fn typescript_is_no_transport_stream() {
    let mut clip = file("/media/clip.ts");
    clip.head = packets();
    let mut code = file("/media/code.ts");
    code.head = b"export const value = 42;\n".to_vec();

    let entries = scan_directory(&options(false, &["ts"]), &vec![code, clip]);

    assert_eq!(shown(&entries), vec!["clip.ts"]);
    assert_eq!(entries[0].media_kind, MediaKind::Video(VideoKind::TransportStream));
    assert!(looks_like_plain_mpeg_ts(&packets()));
    let mut short = packets();
    short.truncate(376);
    assert!(!looks_like_plain_mpeg_ts(&short));
    let mut broken = packets();
    broken[188] = 0;
    assert!(!looks_like_plain_mpeg_ts(&broken));
}

#[test]
fn given_files_are_numbered_in_their_order() {
    let found = vec![file("/b/second.jpg"), file("/a/note.txt"), file("/a/first.mp4")];

    let entries = scan_files(&found, &texts(&["jpg", "mp4"]));

    assert_eq!(shown(&entries), vec!["second.jpg", "first.mp4"]);
    assert_eq!(entries[1].discovered_order, 1);
}

// Orders.

#[test]
fn newest_uses_stable_fallback() {
    let mut entries = vec![written("a.jpg", 0, Some(1)), written("b.jpg", 1, Some(5))];

    sort_entries(&mut entries, SortMode::Newest, None);

    assert_eq!(entries[0].display_name, "b.jpg");
}

#[test]
fn name_desc_is_stable() {
    let mut entries = vec![written("b.jpg", 0, None), written("a.jpg", 1, None)];

    sort_entries(&mut entries, SortMode::NameDesc, Some("en"));

    assert_eq!(entries[0].display_name, "b.jpg");
}

#[test]
fn unicode_names_do_not_panic() {
    let mut entries = vec![written("å.jpg", 0, None), written("a.jpg", 1, None)];

    sort_entries(&mut entries, SortMode::NameAsc, Some("sv"));

    assert_eq!(entries.len(), 2);
}

#[test]
fn locales_order_names_their_own_way() {
    let mut swedish = vec![written("å.jpg", 0, None), written("z.jpg", 1, None)];
    sort_entries(&mut swedish, SortMode::NameAsc, Some("sv"));
    assert_eq!(shown(&swedish), vec!["z.jpg", "å.jpg"]);

    let mut english = vec![written("z.jpg", 0, None), written("å.jpg", 1, None)];
    sort_entries(&mut english, SortMode::NameAsc, Some("en"));
    assert_eq!(shown(&english), vec!["å.jpg", "z.jpg"]);
}

#[test]
fn names_rank_by_the_alphabet_then_by_discovery() {
    let (a, b) = (entry("a.jpg", 0), entry("b.jpg", 1));
    let less = Some(Comparison::Less);
    assert_eq!(rank_by_name(&b, &a, less, SortMode::NameAsc), Comparison::Less);
    assert_eq!(rank_by_name(&b, &a, less, SortMode::NameDesc), Comparison::Greater);
    assert_eq!(rank_by_name(&b, &a, None, SortMode::NameAsc), Comparison::Greater);
    let equal = Some(Comparison::Equal);
    assert_eq!(rank_by_name(&a, &b, equal, SortMode::NameAsc), Comparison::Less);
    let mut unknown = entry("c.jpg", 2);
    unknown.file_name.text = None;
    unknown.file_name.quoted = "\"a\\xFF\"".to_owned();
    assert_eq!(rank_by_name(&unknown, &b, less, SortMode::NameAsc), Comparison::Less);
}

#[test]
fn names_without_a_known_locale_are_still_ordered() {
    let mut entries = vec![written("b.jpg", 0, None), written("A.jpg", 1, None)];

    sort_entries(&mut entries, SortMode::NameAsc, Some("not a locale"));

    assert_eq!(shown(&entries), vec!["A.jpg", "b.jpg"]);
}

#[test]
fn equal_times_keep_their_order() {
    let mut entries = vec![
        written("c.jpg", 2, Some(3)),
        written("a.jpg", 0, Some(3)),
        written("none.jpg", 3, None),
        written("b.jpg", 1, Some(9)),
    ];

    sort_entries(&mut entries, SortMode::Oldest, None);
    assert_eq!(entries.len(), 4);
    assert!(entries.iter().position(|e| e.display_name == "b.jpg")
        > entries.iter().position(|e| e.display_name == "c.jpg"));

    sort_entries(&mut entries, SortMode::Discovered, None);
    assert_eq!(shown(&entries), vec!["a.jpg", "b.jpg", "c.jpg", "none.jpg"]);
}

#[test]
fn sort_keys_cycle_through_their_orders() {
    assert_eq!(next_time_sort(SortMode::Newest), SortMode::Oldest);
    assert_eq!(next_time_sort(SortMode::Oldest), SortMode::Newest);
    assert_eq!(next_time_sort(SortMode::NameAsc), SortMode::Newest);
    assert_eq!(next_name_sort(SortMode::NameAsc), SortMode::NameDesc);
    assert_eq!(next_name_sort(SortMode::NameDesc), SortMode::NameAsc);
    assert_eq!(next_name_sort(SortMode::Newest), SortMode::NameAsc);
    assert!(SortMode::Oldest.by_time());
    assert!(!SortMode::NameDesc.by_time());
}

// Dates and EXIF.

#[test]
fn exif_datetime_parses() {
    assert!(parse_exif_datetime("2026:06:24 12:34:56".to_owned()).is_some());
}

#[test]
fn exif_dates_are_taken_as_utc() {
    assert_eq!(
        parse_exif_datetime("2026:06:24 12:34:56".to_owned()),
        Some(1_782_304_496 * SECOND)
    );
    assert_eq!(parse_exif_datetime("1970:01:01 00:00:00".to_owned()), Some(0));
    assert_eq!(parse_exif_datetime("1969:12:31 23:59:58".to_owned()), Some(-2 * SECOND));
    assert_eq!(parse_exif_datetime("2026-06-24 12:34:56".to_owned()), None);
    assert_eq!(parse_exif_datetime("2026:13:24 12:34:56".to_owned()), None);
    assert_eq!(time_of_seconds(Some(3)), Some(3 * SECOND));
    assert_eq!(time_of_seconds(None), None);
}

#[test]
fn effective_date_prefers_exif() {
    let mut entry = entry("a.jpg", 0);
    entry.created = Some(10 * SECOND);
    entry.exif_date = Some(30 * SECOND);
    entry.exif_attempted = true;

    assert_eq!(effective_date(&entry), Some(30 * SECOND));
}

#[test]
fn effective_date_falls_back_to_file_times() {
    let mut entry = entry("a.jpg", 0);
    assert_eq!(effective_date(&entry), None);
    entry.modified = Some(5 * SECOND);
    assert_eq!(effective_date(&entry), Some(5 * SECOND));
    entry.created = Some(9 * SECOND);
    assert_eq!(effective_date(&entry), Some(9 * SECOND));
}

#[test]
fn exif_fields_are_checked() {
    let date = b"2026:06:24 12:34:56\0".to_vec();
    assert_eq!(
        exif_from_fields(Some(6), Some(&date)),
        ExifMetadata { date: Some(1_782_304_496 * SECOND), orientation: Some(6) }
    );
    assert_eq!(
        exif_from_fields(Some(9), None),
        ExifMetadata { date: None, orientation: None }
    );
    assert_eq!(exif_from_fields(Some(0), Some(&vec![0xff])).orientation, None);
    assert_eq!(ascii_value(&b"\0 text \0".to_vec()), Some("text".to_owned()));
    assert_eq!(ascii_value(&vec![0xff, 0xfe]), None);
}

/// A TIFF file that holds an orientation and the date of its recording.
fn tiff(orientation: u8) -> Vec<u8> {
    let mut bytes = b"II*\0\x08\0\0\0".to_vec();
    bytes.extend([2, 0]);
    bytes.extend([0x12, 0x01, 3, 0, 1, 0, 0, 0, orientation, 0, 0, 0]);
    bytes.extend([0x69, 0x87, 4, 0, 1, 0, 0, 0, 38, 0, 0, 0]);
    bytes.extend([0, 0, 0, 0]);
    bytes.extend([1, 0]);
    bytes.extend([0x03, 0x90, 2, 0, 20, 0, 0, 0, 56, 0, 0, 0]);
    bytes.extend([0, 0, 0, 0]);
    bytes.extend(b"2026:06:24 12:34:56\0");
    bytes
}

#[test]
fn exif_metadata_are_read_out_of_a_file() {
    assert_eq!(
        read_exif_metadata(&tiff(8)),
        Some(ExifMetadata { date: Some(1_782_304_496 * SECOND), orientation: Some(8) })
    );
    assert_eq!(read_exif_metadata(&b"no image".to_vec()), None);
    assert_eq!(orientation_for(Some(3), &tiff(8)), Some(3));
    assert_eq!(orientation_for(None, &tiff(8)), Some(8));
    assert_eq!(orientation_for(None, &Vec::new()), None);
}

#[test]
fn entries_are_enriched_once() {
    let mut photo = entry("a.jpg", 0);
    enrich_entry(&mut photo, Some(&tiff(6)));
    assert_eq!(photo.exif_orientation, Some(6));
    assert_eq!(photo.exif_date, Some(1_782_304_496 * SECOND));
    assert!(photo.exif_attempted && photo.dimensions_attempted);

    enrich_entry(&mut photo, Some(&tiff(3)));
    assert_eq!(photo.exif_orientation, Some(6));

    let mut unreadable = entry("b.jpg", 1);
    enrich_entry(&mut unreadable, None);
    assert_eq!(unreadable.dimensions, None);
    assert!(unreadable.exif_attempted && unreadable.dimensions_attempted);

    let mut clip = entry("c.mp4", 2);
    clip.media_kind = MediaKind::Video(VideoKind::Mp4);
    enrich_entry(&mut clip, Some(&tiff(6)));
    assert_eq!(clip.exif_orientation, None);
    assert!(clip.exif_attempted);
}

#[test]
fn time_sort_reads_no_exif_of_large_files() {
    let mut large = entry("large.jpg", 0);
    large.file_len = 64 * 1024 * 1024 + 1;
    let mut limit = entry("limit.jpg", 1);
    limit.file_len = 64 * 1024 * 1024;
    assert!(!exif_date_needed(&large));
    assert!(exif_date_needed(&limit));

    let exif = ExifMetadata { date: Some(7), orientation: Some(2) };
    let mut entries = vec![large, limit];
    enrich_entries_for_time_sort(&mut entries, &vec![Some(exif), Some(exif)]);

    assert_eq!(entries[0].exif_date, None);
    assert_eq!(entries[1].exif_date, Some(7));
    assert_eq!(entries[1].exif_orientation, Some(2));
}

// The browser.

#[test]
fn browser_listing_sorts_folders_media_and_unsupported_files() {
    let found = vec![
        file("/media/image.jpg"),
        file("/media/note.txt"),
        folder("/media/folder"),
        file("/media/clip.mp4"),
    ];

    let entries = read_browser_entries(&found, false, &texts(&["jpg", "mp4"]));

    assert_eq!(
        entries.iter().map(|entry| entry.display_name.as_str()).collect::<Vec<_>>(),
        vec!["folder", "clip.mp4", "image.jpg", "note.txt"]
    );
    assert_eq!(entries[0].kind, BrowserEntryKind::Directory);
    assert!(matches!(entries[1].kind, BrowserEntryKind::Media(_)));
    assert_eq!(entries[3].kind, BrowserEntryKind::UnsupportedFile);
}

#[test]
fn browser_listing_respects_hidden_toggle() {
    let found = vec![file("/media/.hidden.jpg"), file("/media/visible.jpg")];

    let hidden_off = read_browser_entries(&found, false, &texts(&["jpg"]));
    let hidden_on = read_browser_entries(&found, true, &texts(&["jpg"]));

    assert_eq!(hidden_off.len(), 1);
    assert_eq!(hidden_off[0].display_name, "visible.jpg");
    assert!(hidden_on.iter().any(|entry| entry.display_name == ".hidden.jpg"));
}

#[test]
fn browser_listing_probes_ambiguous_ts_files() {
    let mut source = file("/media/code.ts");
    source.head = "export const value = 42;\n".repeat(40).into_bytes();
    let mut video = file("/media/clip.ts");
    video.head = packets();

    let entries = read_browser_entries(&vec![source, video], false, &texts(&["ts"]));

    let kind_of = |name: &str| {
        entries
            .iter()
            .find(|entry| entry.display_name == name)
            .map(|entry| entry.kind)
            .unwrap()
    };
    assert!(matches!(kind_of("clip.ts"), BrowserEntryKind::Media(_)));
    assert_eq!(kind_of("code.ts"), BrowserEntryKind::UnsupportedFile);
}

#[test]
fn browser_navigation_clamps_to_visible_range() {
    assert_eq!(browser_move_index(0, -1, 4), 0);
    assert_eq!(browser_move_index(1, 2, 4), 3);
    assert_eq!(browser_move_index(3, 8, 4), 3);
    assert_eq!(browser_move_index(0, 1, 0), 0);
}

#[test]
fn browser_state_restores_remembered_child_selection() {
    let found = vec![file("/media/a.jpg"), file("/media/b.jpg")];
    let mut remembered: KeyMap<MediaPath, MediaPath> = KeyMap::new();
    remembered.insert(path("/media"), path("/media/b.jpg"));
    let entries = read_browser_entries(&found, false, &texts(&["jpg"]));

    let browser = BrowserState::for_directory(path("/media"), None, remembered, entries);

    assert_eq!(browser.selected_path(), Some(path("/media/b.jpg")));
}

#[test]
fn browser_lists_no_links() {
    let mut link = file("/media/link.jpg");
    link.metadata.as_mut().unwrap().is_symlink = true;

    let entries = read_browser_entries(&vec![link, file("/media/a.jpg")], true, &texts(&["jpg"]));

    assert_eq!(entries.len(), 1);
}

#[test]
fn browser_remembers_what_is_selected() {
    let found = vec![file("/media/a.jpg"), file("/media/b.jpg")];
    let entries = read_browser_entries(&found, false, &texts(&["jpg"]));
    let mut browser = BrowserState::for_directory(
        path("/media"),
        Some(path("/media/b.jpg")),
        KeyMap::new(),
        entries,
    );
    assert_eq!(browser.selected_index, 1);
    browser.selected_index = 0;
    browser.remember_current_selection();
    assert_eq!(
        browser.remembered_selection.get(&path("/media")),
        Some(&path("/media/a.jpg"))
    );
}

#[test]
fn browser_prefers_a_path_that_is_listed() {
    let found = vec![file("/media/a.jpg"), file("/media/b.jpg")];
    let entries = read_browser_entries(&found, false, &texts(&["jpg"]));
    assert_eq!(preferred_browser_index(&entries, Some(&path("/media/b.jpg")), 0), 1);
    assert_eq!(preferred_browser_index(&entries, Some(&path("/media/c.jpg")), 1), 1);
    assert_eq!(preferred_browser_index(&entries, None, 9), 1);
    assert_eq!(listed_directory_for_target(&path("/media/a")), path("/media"));
    assert_eq!(listed_directory_for_target(&path("/")), path("/"));
}

#[test]
fn browser_opens_on_what_the_session_shows() {
    let mut session = state(vec![entry("/media/a.jpg", 0)]);
    session.directory = path("/media");
    session.mode = ViewMode::Grid;
    assert_eq!(browser_target_for(&session), path("/media"));
    session.mode = ViewMode::Preview;
    assert_eq!(browser_target_for(&session), path("/media/a.jpg"));
}

#[test]
fn long_paths_keep_their_end() {
    let fits_ten = |text: &str| text.chars().count() <= 10;
    assert_eq!(left_elided_text("short", &fits_ten), "short");
    let elided = left_elided_text("/very/long/path/name.jpg", &fits_ten);
    assert!(fits_ten(&elided));
    assert!(elided.ends_with("name.jpg"));
}

// The state of a session.

#[test]
fn delete_queue_toggle_is_idempotent() {
    let mut state = state(vec![entry("a.jpg", 0)]);

    state.toggle_queue_current();
    state.toggle_queue_current();

    assert_eq!(state.queue_count(), 0);
}

#[test]
fn index_clamps_after_entries_shrink() {
    let mut state = state(vec![entry("a.jpg", 0), entry("b.jpg", 1)]);
    state.current_index = 8;

    state.set_entries_preserving_current(vec![entry("a.jpg", 0)], None);

    assert_eq!(state.current_index, 0);
}

#[test]
fn page_movement_uses_last_grid_page_size() {
    let mut state = state((0..10).map(|i| entry(&format!("{i}.jpg"), i)).collect());
    state.last_grid_page_size = 4;

    state.page_by(1);

    assert_eq!(state.current_index, 4);
}

#[test]
fn media_kind_classifies_image_and_video_extensions() {
    assert_eq!(
        MediaKind::from_extension(Some("jpg")),
        Some(MediaKind::Image(ImageKind::Jpeg))
    );
    assert_eq!(
        MediaKind::from_extension(Some("mp4")),
        Some(MediaKind::Video(VideoKind::Mp4))
    );
    assert_eq!(MediaKind::from_extension(Some("txt")), None);
}

#[test]
fn app_state_stores_selected_media_mode() {
    for media_mode in [MediaMode::Both, MediaMode::Image, MediaMode::Video] {
        let state = AppState::new(
            path("."),
            false,
            false,
            media_mode,
            texts(&["jpg"]),
            SortMode::Discovered,
            vec![entry("a.jpg", 0)],
        );

        assert_eq!(state.media_mode, media_mode);
    }
}

#[test]
fn the_browser_opens_beside_the_current_file() {
    let mut session = state(vec![entry("/media/a.jpg", 0), entry("/media/b.jpg", 1)]);
    session.directory = path("/media");
    session.mode = ViewMode::Preview;
    session.current_index = 1;
    let found = vec![file("/media/a.jpg"), file("/media/b.jpg")];
    let entries = read_browser_entries(&found, false, &texts(&["jpg"]));

    let browser = BrowserState::for_current_view(&session, entries);

    assert_eq!(browser.listed_directory, path("/media"));
    assert_eq!(browser.selected_path(), Some(path("/media/b.jpg")));
}

#[test]
fn the_current_entry_can_be_changed() {
    let mut state = state(vec![entry("a.jpg", 0)]);
    state.current_entry_mut().unwrap().dimensions = Some((3, 2));
    assert_eq!(state.entries[0].dimensions, Some((3, 2)));
    state.last_preview_size = Some((80, 24));
    state.forget_render_layout();
    assert_eq!(state.last_preview_size, None);
}

#[test]
fn moves_stay_inside_the_list() {
    let mut state = state(vec![entry("a.jpg", 0), entry("b.jpg", 1), entry("c.jpg", 2)]);
    state.previous();
    assert_eq!(state.current_index, 0);
    state.next();
    assert_eq!(state.current_index, 1);
    state.last();
    state.next();
    assert_eq!(state.current_index, 2);
    state.first();
    assert_eq!(state.current_index, 0);
}

#[test]
fn queue_view_moves_among_marked_files() {
    let mut state = state((0..6).map(|i| entry(&format!("{i}.jpg"), i)).collect());
    for index in [1, 4] {
        state.current_index = index;
        state.toggle_queue_current();
    }
    state.current_index = 0;
    state.enter_delete_queue_grid();
    assert_eq!(state.mode, ViewMode::DeleteQueueGrid);
    assert_eq!(state.current_index, 1);
    state.next();
    assert_eq!(state.current_index, 4);
    state.next();
    assert_eq!(state.current_index, 4);
    state.first();
    assert_eq!(state.current_index, 1);
    assert_eq!(state.queued_indices(), vec![1, 4]);
    assert_eq!(state.queue_position(), Some(0));
}

#[test]
fn new_entries_keep_the_selection_and_listed_marks() {
    let mut state = state(vec![entry("a.jpg", 0), entry("b.jpg", 1), entry("c.jpg", 2)]);
    state.toggle_queue_current();
    state.current_index = 1;
    state.toggle_queue_current();
    let previous = state.current_path();

    state.set_entries_preserving_current(vec![entry("c.jpg", 2), entry("b.jpg", 1)], previous);

    assert_eq!(state.current_index, 1);
    assert_eq!(state.queue_count(), 1);
    assert!(state.is_queued(&path("b.jpg")));
    assert!(!state.is_queued(&path("a.jpg")));
    assert_eq!(state.thumbnail_generation, 1);
}

#[test]
fn sorting_keeps_the_selection_and_the_marks() {
    let mut state = state(vec![written("b.jpg", 0, Some(1)), written("a.jpg", 1, Some(2))]);
    state.toggle_queue_current();

    state.resort(SortMode::NameAsc, None);

    assert_eq!(shown(&state.entries), vec!["a.jpg", "b.jpg"]);
    assert_eq!(state.current_path(), Some(path("b.jpg")));
    assert!(state.is_queued_current());
}

#[test]
fn a_scan_takes_every_mark_off() {
    let mut state = state(vec![entry("a.jpg", 0), entry("b.jpg", 1)]);
    state.current_index = 1;
    state.toggle_queue_current();

    state.take_scan(vec![entry("a.jpg", 0), entry("b.jpg", 1)], None);

    assert_eq!(state.queue_count(), 0);
    assert_eq!(state.current_path(), Some(path("b.jpg")));
}

#[test]
fn path_sets_keep_their_order_without_repeats() {
    let mut set = PathSet::from_paths(&vec![path("b"), path("a"), path("b"), path("c")]);
    assert_eq!(set.to_paths(), vec![path("b"), path("a"), path("c")]);
    assert!(!set.insert(&path("a")));
    assert!(set.insert(&path("d")));
    assert!(set.shift_remove(&path("a")));
    assert!(!set.shift_remove(&path("a")));
    assert_eq!(set.get(1), path("c"));
    assert!(set.contains(&path("d")));
    set.retain_entries(&vec![entry("d", 0), entry("b", 1)]);
    assert_eq!(set.to_paths(), vec![path("b"), path("d")]);
    set.remove_all(&vec![path("b")]);
    assert_eq!(set.len(), 1);
    set.clear();
    assert!(set.is_empty());
}

#[test]
fn paths_are_taken_apart() {
    let media = path("/media/holiday/clip.tar.MP4");
    assert_eq!(media.file_name(), Some(&b"clip.tar.MP4".to_vec()));
    assert_eq!(media.extension(), Some(b"MP4".to_vec()));
    assert_eq!(media.parent(), Some(path("/media/holiday")));
    assert!(media.starts_with(&path("/media")));
    assert!(!media.starts_with(&path("/med")));
    assert_eq!(path("/").parent(), None);
    assert_eq!(path("/media/.hidden").extension(), None);
}

#[test]
fn browser_listings_are_sorted_in_every_mode() {
    let mut first = file("/media/a.jpg");
    first.metadata.as_mut().unwrap().created = Some(3);
    let mut second = file("/media/B.jpg");
    second.metadata.as_mut().unwrap().created = None;
    second.metadata.as_mut().unwrap().modified = Some(9);
    let mut third = file("/media/c.jpg");
    third.metadata.as_mut().unwrap().created = None;
    third.metadata.as_mut().unwrap().modified = None;
    let found = vec![third, first, second, folder("/media/z")];
    let shown = |mode: SortMode| {
        let entries = read_browser_entries_with_sort_cancellable(
            &found,
            false,
            &texts(&["jpg"]),
            mode,
            &|| false,
        );
        entries.unwrap().into_iter().map(|entry| entry.display_name).collect::<Vec<_>>()
    };
    assert_eq!(shown(SortMode::NameAsc), vec!["z", "a.jpg", "B.jpg", "c.jpg"]);
    assert_eq!(shown(SortMode::Discovered), vec!["z", "a.jpg", "B.jpg", "c.jpg"]);
    assert_eq!(shown(SortMode::NameDesc), vec!["z", "c.jpg", "B.jpg", "a.jpg"]);
    assert_eq!(shown(SortMode::Newest), vec!["z", "B.jpg", "a.jpg", "c.jpg"]);
    assert_eq!(shown(SortMode::Oldest), vec!["z", "c.jpg", "a.jpg", "B.jpg"]);
    let cancelled = read_browser_entries_with_sort_cancellable(
        &found,
        false,
        &texts(&["jpg"]),
        SortMode::NameAsc,
        &|| true,
    );
    assert!(cancelled.is_none());
}

#[test]
fn descending_names_reverse_ascending_ones() {
    let names = ["b.jpg", "a.jpg", "b.jpg", "C.jpg", "ö.jpg"];
    let sorted = |mode: SortMode| {
        let mut entries = names
            .iter()
            .enumerate()
            .map(|(order, name)| entry(name, order))
            .collect::<Vec<_>>();
        sort_entries(&mut entries, mode, Some("sv"));
        entries.into_iter().map(|entry| entry.discovered_order).collect::<Vec<_>>()
    };
    let mut reversed = sorted(SortMode::NameDesc);
    reversed.reverse();
    assert_eq!(sorted(SortMode::NameAsc), vec![1, 0, 2, 3, 4]);
    assert_eq!(reversed, vec![1, 0, 2, 3, 4]);
}

#[test]
fn flat_scans_are_part_of_recursive_ones() {
    let found = vec![
        file("/media/nested/b.jpg"),
        file("/media/a.jpg"),
        file("/media/.c.jpg"),
        file("/media/d.jpg"),
    ];
    let flat = scan_directory(&options(false, &["jpg"]), &found);
    let deep = scan_directory(&options(true, &["jpg"]), &found);
    assert_eq!(shown(&flat), vec!["a.jpg", "d.jpg"]);
    assert_eq!(shown(&deep), vec!["b.jpg", "a.jpg", "d.jpg"]);
    let numbers = deep.iter().map(|entry| entry.discovered_order).collect::<Vec<_>>();
    assert_eq!(numbers, vec![0, 1, 2]);
}

#[test]
fn recursive_scans_leave_hidden_folders_out() {
    let found = vec![
        file("/media/.cache/a.jpg"),
        file("/media/nested/.trash/b.jpg"),
        file("/media/nested/c.jpg"),
    ];
    let entries = scan_directory(&options(true, &["jpg"]), &found);
    assert_eq!(shown(&entries), vec!["c.jpg"]);

    let mut opts = options(true, &["jpg"]);
    opts.include_hidden = true;
    assert_eq!(scan_directory(&opts, &found).len(), 3);
    opts.include_hidden = false;
    opts.root = path("/media/.cache");
    let inside = scan_directory(&opts, &vec![file("/media/.cache/a.jpg")]);
    assert_eq!(shown(&inside), vec!["a.jpg"]);
}

#[test]
fn names_follow_their_sort_keys() {
    let names = ["zebra.jpg", "Äpple.jpg", "apple.jpg", "Apple.jpg", "öl.jpg", "a-b.jpg", "ab.jpg"];
    let locale: icu::locale::Locale = "sv".parse().unwrap();
    let collator = icu::collator::Collator::try_new(locale.into(), Default::default()).unwrap();
    let mut keys = names
        .iter()
        .map(|name| {
            let mut key: Vec<u8> = Vec::new();
            collator.write_sort_key_to(name, &mut key).unwrap();
            (key, (*name).to_owned())
        })
        .collect::<Vec<_>>();
    keys.sort();
    let mut entries = names
        .iter()
        .enumerate()
        .map(|(order, name)| entry(name, order))
        .collect::<Vec<_>>();
    sort_entries(&mut entries, SortMode::NameAsc, Some("sv"));
    let expected = keys.into_iter().map(|(_, name)| name).collect::<Vec<_>>();
    assert_eq!(shown(&entries), expected);
}
