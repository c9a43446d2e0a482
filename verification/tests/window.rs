//! The window: what its keys, videos, scans and deletions do.

use std::time::Duration;

use cullr::browser::{BrowserEntry, BrowserEntryKind, BrowserPaneFocus};
use cullr::cli::CliView;
use cullr::delete::{check_deletion, delete_queued, FileFacts, FileOutcome, FileProbe};
use cullr::gui::browsing::{
    browser_target_for_launch, pane_target, BrowserEffect, BrowserPane, PaneTarget,
};
use cullr::gui::drawing::{CellBorder, CellPicture, PreviewPlan};
use cullr::gui::launch::{
    initial_view_mode_for_launch, resolve_launch, scan_launch_scope, scan_state_scope,
    start_session, LaunchError, LaunchTarget, PathFact, PathKind, ResolvedPath, SessionOptions,
};
use cullr::gui::playback::{
    contextual_u_key_action, empty_media_status, focus_playback_effect, format_video_timestamp,
    initial_view_mode, next_video_index_after, selection_autoplay_after_pause_state,
    selection_autoplay_after_playback_start, selection_autoplay_after_seek,
    should_autoplay_initial_video, should_autoplay_selected_video, should_show_media_type_badge,
    video_progress, video_progress_overlay_deadline_for_trigger,
    video_progress_overlay_target_visible, video_seek_step, video_seek_target, y_key_action,
    FocusPlaybackEffect, UKeyAction, VideoProgress, VideoSeekDirection, YKeyAction,
};
use cullr::gui::schedule::RefreshSchedule;
use cullr::gui::textures::{TexKey, Variant, FIT_CAP, THUMB_CAP};
use cullr::gui::window::{DecodeResult, GuiApp, GuiEffect, Keys, PREVIEW_BYTES};
use cullr::path::MediaPath;
use cullr::queue::PathSet;
use cullr::refresh::{prepare_media_refresh, MediaRefreshOutput, MediaRefreshScope};
use cullr::scanner::{scan_files, FoundFile, FoundMetadata};
use cullr::state::{
    AppState, FileName, ImageKind, MediaEntry, MediaKind, MediaMode, SortMode, VideoKind, ViewMode,
};
use cullr::video::PlaybackEvent;

const SECOND: u128 = 1_000_000_000;

const NO_KEYS: Keys = Keys {
    ctrl: false,
    shift: false,
    a: false,
    b: false,
    d: false,
    e: false,
    f: false,
    g: false,
    h: false,
    i: false,
    j: false,
    k: false,
    l: false,
    m: false,
    n: false,
    o: false,
    p: false,
    q: false,
    r: false,
    t: false,
    u: false,
    y: false,
    z: false,
    left: false,
    right: false,
    up: false,
    down: false,
    home: false,
    end: false,
    space: false,
    enter: false,
    escape: false,
    period: false,
    question: false,
};

fn path(text: &str) -> MediaPath {
    let mut names: Vec<Vec<u8>> = Vec::new();
    if text.starts_with('/') {
        names.push(b"/".to_vec());
    }
    for part in text.split('/') {
        if !part.is_empty() {
            names.push(part.as_bytes().to_vec());
        }
    }
    MediaPath { names }
}

fn name(text: &str) -> FileName {
    FileName { text: Some(text.to_owned()), lossy: text.to_owned(), quoted: format!("{text:?}") }
}

fn texts(items: &[&str]) -> Vec<String> {
    items.iter().map(|item| (*item).to_owned()).collect()
}

fn media_entry(file: &str, media_kind: MediaKind, discovered_order: usize) -> MediaEntry {
    let last = file.rsplit('/').next().unwrap();
    MediaEntry {
        path: path(file),
        file_name: name(last),
        display_name: last.to_owned(),
        extension: last.rsplit('.').next().map(str::to_owned),
        file_len: 1,
        created: None,
        modified: Some(5),
        discovered_order,
        dimensions: None,
        media_kind,
        exif_date: None,
        exif_orientation: None,
        dimensions_attempted: false,
        exif_attempted: false,
    }
}

fn photo(file: &str, order: usize) -> MediaEntry {
    media_entry(file, MediaKind::Image(ImageKind::Jpeg), order)
}

fn clip(file: &str, order: usize) -> MediaEntry {
    media_entry(file, MediaKind::Video(VideoKind::Mp4), order)
}

fn app_state(entries: Vec<MediaEntry>, current_index: usize) -> AppState {
    let mut state = AppState::new(
        path("/tmp/media"),
        false,
        false,
        MediaMode::Both,
        texts(&["jpg", "mp4"]),
        SortMode::Discovered,
        entries,
    );
    state.current_index = current_index;
    state
}

fn window(entries: Vec<MediaEntry>) -> GuiApp {
    GuiApp::new(app_state(entries, 0), None, false, false, "/tmp/media".to_owned())
}

fn photos(count: usize) -> Vec<MediaEntry> {
    (0..count).map(|i| photo(&format!("/tmp/media/{i}.jpg"), i)).collect()
}

fn press(app: &mut GuiApp, keys: Keys) -> Vec<GuiEffect> {
    app.handle_input(&keys, 0)
}

// Rules.

#[test]
fn media_type_badge_visibility_matches_mode_and_playback() {
    let image = MediaKind::Image(ImageKind::Jpeg);
    let video = MediaKind::Video(VideoKind::Mp4);

    assert!(should_show_media_type_badge(true, MediaMode::Both, &image, false));
    assert!(should_show_media_type_badge(true, MediaMode::Both, &video, false));
    assert!(!should_show_media_type_badge(true, MediaMode::Both, &video, true));
    assert!(!should_show_media_type_badge(false, MediaMode::Both, &image, false));
    assert!(!should_show_media_type_badge(true, MediaMode::Image, &image, false));
    assert!(!should_show_media_type_badge(true, MediaMode::Video, &video, false));
}

#[test]
fn empty_media_status_mentions_target_recursive_search_and_quit() {
    let status = empty_media_status("/tmp/empty-media");

    assert!(status.contains("No media found"));
    assert!(status.contains("/tmp/empty-media"));
    assert!(status.contains("`r`"));
    assert!(status.contains("recursive search"));
    assert!(status.contains("`q`"));
}

#[test]
fn initial_view_mode_uses_grid_for_folder_targets() {
    assert_eq!(initial_view_mode(None), ViewMode::Grid);
    assert_eq!(
        initial_view_mode(Some(&path("/tmp/media/image.jpg"))),
        ViewMode::Preview
    );
}

#[test]
fn initial_video_autoplay_only_for_matching_direct_video_file() {
    let image_path = path("/tmp/media/image.jpg");
    let video_path = path("/tmp/media/video.mp4");
    let image = photo("/tmp/media/image.jpg", 0);
    let video = clip("/tmp/media/video.mp4", 1);

    let mut state = app_state(vec![image.clone(), video.clone()], 1);
    assert!(should_autoplay_initial_video(&state, Some(&video_path)));

    assert!(!should_autoplay_initial_video(&state, None));

    state = app_state(vec![image.clone()], 0);
    assert!(!should_autoplay_initial_video(&state, Some(&image_path)));

    state = app_state(vec![image, video], 0);
    assert!(!should_autoplay_initial_video(&state, Some(&video_path)));

    state = app_state(Vec::new(), 0);
    assert!(!should_autoplay_initial_video(&state, Some(&video_path)));
}

#[test]
fn selection_autoplay_stays_armed_across_images_until_pause() {
    let image = photo("/tmp/media/image.jpg", 0);
    let video = clip("/tmp/media/video.mp4", 1);

    assert!(selection_autoplay_after_playback_start());
    assert!(!should_autoplay_selected_video(true, Some(&image)));
    assert!(should_autoplay_selected_video(true, Some(&video)));
    assert!(!selection_autoplay_after_pause_state(true));
    assert!(selection_autoplay_after_pause_state(false));
}

#[test]
fn video_seek_target_moves_by_ten_percent_and_clamps() {
    let duration = 100 * SECOND;

    assert_eq!(
        video_seek_target(50 * SECOND, Some(duration), VideoSeekDirection::Backward),
        Some(40 * SECOND)
    );
    assert_eq!(
        video_seek_target(50 * SECOND, Some(duration), VideoSeekDirection::Forward),
        Some(60 * SECOND)
    );
    assert_eq!(
        video_seek_target(5 * SECOND, Some(duration), VideoSeekDirection::Backward),
        Some(0)
    );
    assert_eq!(
        video_seek_target(95 * SECOND, Some(duration), VideoSeekDirection::Forward),
        Some(duration)
    );
}

#[test]
fn video_seek_target_requires_known_nonzero_duration() {
    assert_eq!(
        video_seek_target(5 * SECOND, None, VideoSeekDirection::Forward),
        None
    );
    assert_eq!(
        video_seek_target(5 * SECOND, Some(0), VideoSeekDirection::Backward),
        None
    );
}

#[test]
fn seeking_back_undoes_seeking_on() {
    let duration = 90 * SECOND;
    let on = video_seek_target(30 * SECOND, Some(duration), VideoSeekDirection::Forward).unwrap();
    assert_eq!(on, 39 * SECOND);
    assert_eq!(
        video_seek_target(on, Some(duration), VideoSeekDirection::Backward),
        Some(30 * SECOND)
    );
    assert_eq!(video_seek_step(duration), Some(9 * SECOND));
    assert_eq!(video_seek_step(0), None);
}

#[test]
fn video_seek_preserves_playing_session_but_not_paused_session() {
    assert!(selection_autoplay_after_seek(false));
    assert!(!selection_autoplay_after_seek(true));
}

#[test]
fn contextual_u_rewinds_active_video_otherwise_unqueues() {
    assert_eq!(contextual_u_key_action(true), UKeyAction::SeekBackward);
    assert_eq!(contextual_u_key_action(false), UKeyAction::Unqueue);
}

#[test]
fn y_confirms_delete_only_inside_confirmation_modal() {
    assert_eq!(y_key_action(true), YKeyAction::ConfirmDelete);
    assert_eq!(y_key_action(false), YKeyAction::ShowProgress);
}

/// The part of a video that has been shown.
fn fraction(progress: VideoProgress) -> f32 {
    let part = progress.fraction();
    (part.mantissa as f64 * 2f64.powi(part.exponent)) as f32
}

#[test]
fn video_progress_fraction_clamps_and_requires_duration() {
    let duration = 100 * SECOND;

    let quarter = video_progress(25 * SECOND, Some(duration));
    assert_eq!(quarter, Some(VideoProgress { position: 25 * SECOND, duration }));
    assert_eq!(fraction(quarter.unwrap()), 0.25);
    let over = video_progress(125 * SECOND, Some(duration));
    assert_eq!(over, Some(VideoProgress { position: duration, duration }));
    assert_eq!(fraction(over.unwrap()), 1.0);
    assert_eq!(video_progress(SECOND, None), None);
    assert_eq!(video_progress(SECOND, Some(0)), None);
}

#[test]
fn progress_overlay_trigger_extends_deadline_for_manual_or_seek_reveal() {
    let first = video_progress_overlay_deadline_for_trigger(10 * SECOND, true);
    let second = video_progress_overlay_deadline_for_trigger(11_500_000_000, true);

    assert_eq!(first, Some(12 * SECOND));
    assert_eq!(second, Some(13_500_000_000));
    assert!(second > first);
    assert_eq!(
        video_progress_overlay_deadline_for_trigger(10 * SECOND, false),
        None
    );
}

#[test]
fn progress_overlay_visibility_uses_deadline() {
    assert!(video_progress_overlay_target_visible(11_990_000_000, 12 * SECOND));
    assert!(!video_progress_overlay_target_visible(12 * SECOND, 12 * SECOND));
    assert!(!video_progress_overlay_target_visible(12_010_000_000, 12 * SECOND));
}

#[test]
fn video_timestamp_formats_minutes_and_hours() {
    assert_eq!(format_video_timestamp(65 * SECOND), "1:05");
    assert_eq!(format_video_timestamp(3661 * SECOND), "1:01:01");
}

#[test]
fn auto_next_finds_next_video_without_wrapping() {
    let entries = vec![
        media_entry("/tmp/media/first.mp4", MediaKind::Video(VideoKind::Mp4), 0),
        media_entry("/tmp/media/image.jpg", MediaKind::Image(ImageKind::Jpeg), 1),
        media_entry("/tmp/media/second.mov", MediaKind::Video(VideoKind::Mov), 2),
    ];

    assert_eq!(next_video_index_after(&entries, 0), Some(2));
    assert_eq!(next_video_index_after(&entries, 1), Some(2));
    assert_eq!(next_video_index_after(&entries, 2), None);
    assert_eq!(next_video_index_after(&entries, usize::MAX), None);
}

#[test]
fn focus_loss_pauses_video_and_clears_selection_autoplay() {
    assert_eq!(
        focus_playback_effect(true, false, true, true),
        FocusPlaybackEffect { pause_video: true, selection_autoplay_armed: false }
    );
}

#[test]
fn focus_gain_does_not_auto_resume() {
    assert_eq!(
        focus_playback_effect(false, true, false, false),
        FocusPlaybackEffect { pause_video: false, selection_autoplay_armed: false }
    );
}

#[test]
fn unchanged_focus_state_preserves_playback_state() {
    assert_eq!(
        focus_playback_effect(true, true, true, true),
        FocusPlaybackEffect { pause_video: false, selection_autoplay_armed: true }
    );
    assert_eq!(
        focus_playback_effect(false, false, false, false),
        FocusPlaybackEffect { pause_video: false, selection_autoplay_armed: false }
    );
}

// Launches.

fn fact(text: &str, kind: PathKind) -> PathFact {
    PathFact {
        text: text.to_owned(),
        is_symlink: false,
        resolved: Ok(ResolvedPath { path: path(text), text: text.to_owned(), kind }),
    }
}

fn found(text: &str) -> FoundFile {
    FoundFile {
        path: path(text),
        name: name(text.rsplit('/').next().unwrap()),
        metadata: Some(FoundMetadata {
            is_symlink: false,
            is_dir: false,
            is_file: true,
            len: 1,
            created: None,
            modified: None,
        }),
        head: Vec::new(),
    }
}

#[test]
fn resolve_launch_without_paths_uses_current_directory() {
    let current = fact("/home", PathKind::Directory);

    let launch = resolve_launch(&vec![], None, Some(&current)).unwrap();

    assert_eq!(
        launch,
        LaunchTarget::Directory { directory: path("/home"), initial_file: None }
    );
    assert_eq!(
        resolve_launch(&vec![], None, None),
        Err(LaunchError::NoCurrentDirectory)
    );
}

#[test]
fn resolve_launch_keeps_single_directory_as_directory_mode() {
    let launch =
        resolve_launch(&vec![fact("/tmp/media", PathKind::Directory)], None, None).unwrap();

    assert_eq!(
        launch,
        LaunchTarget::Directory { directory: path("/tmp/media"), initial_file: None }
    );
}

#[test]
fn resolve_launch_keeps_single_file_as_parent_directory_mode() {
    let launch =
        resolve_launch(&vec![fact("/tmp/media/image.jpg", PathKind::File)], None, None).unwrap();

    assert_eq!(
        launch,
        LaunchTarget::Directory {
            directory: path("/tmp/media"),
            initial_file: Some(path("/tmp/media/image.jpg")),
        }
    );
    assert_eq!(initial_view_mode_for_launch(&launch), ViewMode::Preview);
}

#[test]
fn resolve_launch_multiple_files_become_selected_file_scope_and_dedupe() {
    let video = "/tmp/media/clip.mp4";
    let image = "/tmp/media/image.jpg";

    let launch = resolve_launch(
        &vec![
            fact(video, PathKind::File),
            fact(image, PathKind::File),
            fact(video, PathKind::File),
        ],
        None,
        None,
    )
    .unwrap();

    assert_eq!(
        launch,
        LaunchTarget::SelectedFiles {
            directory: path("/tmp/media"),
            files: vec![path(video), path(image)],
        }
    );
    assert_eq!(initial_view_mode_for_launch(&launch), ViewMode::Grid);
}

#[test]
fn resolve_launch_rejects_directories_in_selected_file_scope() {
    let error = resolve_launch(
        &vec![
            fact("/tmp/media/image.jpg", PathKind::File),
            fact("/tmp/media", PathKind::Directory),
        ],
        None,
        None,
    )
    .unwrap_err();

    assert!(error.message().contains("multiple path launch accepts files only"));
}

#[test]
fn launches_reject_links_to_files() {
    let mut link = fact("/tmp/link.jpg", PathKind::File);
    link.is_symlink = true;
    let error = resolve_launch(&vec![link], None, None).unwrap_err();
    assert_eq!(error, LaunchError::Symlink("/tmp/link.jpg".to_owned()));
    assert_eq!(error.message(), "/tmp/link.jpg is a symbolic link");

    let mut second = fact("/tmp/link.jpg", PathKind::File);
    second.is_symlink = true;
    assert!(resolve_launch(&vec![fact("/tmp/a.jpg", PathKind::File), second], None, None).is_err());
}

#[test]
fn launches_report_what_is_wrong_with_a_path() {
    let missing = PathFact {
        text: "/gone".to_owned(),
        is_symlink: false,
        resolved: Err("No such file".to_owned()),
    };
    assert_eq!(
        resolve_launch(&vec![missing], None, None),
        Err(LaunchError::Unresolved("/gone".to_owned(), "No such file".to_owned()))
    );
    assert_eq!(
        resolve_launch(&vec![fact("/dev/pipe", PathKind::Other)], None, None),
        Err(LaunchError::NotFileOrDirectory("/dev/pipe".to_owned()))
    );
    assert_eq!(
        resolve_launch(
            &vec![fact("/a.jpg", PathKind::File), fact("/dev/pipe", PathKind::Other)],
            None,
            None
        ),
        Err(LaunchError::NotAFile("/dev/pipe".to_owned()))
    );
    let option = fact("/photos", PathKind::Directory);
    assert_eq!(
        resolve_launch(&vec![], Some(&option), None),
        Ok(LaunchTarget::Directory { directory: path("/photos"), initial_file: None })
    );
}

#[test]
fn selected_launch_entries_filter_and_follow_argument_order() {
    let video = "/tmp/media/clip.mp4";
    let ignored = "/tmp/media/ignored.txt";
    let image = "/tmp/media/image.jpg";
    let launch = resolve_launch(
        &vec![
            fact(video, PathKind::File),
            fact(ignored, PathKind::File),
            fact(image, PathKind::File),
        ],
        None,
        None,
    )
    .unwrap();
    let extensions = texts(&["jpg", "mp4"]);
    let MediaRefreshScope::SelectedFiles { files, extensions } =
        scan_launch_scope(&launch, false, false, &extensions)
    else {
        panic!("expected selected files launch");
    };
    assert_eq!(files, vec![path(video), path(ignored), path(image)]);

    let entries =
        scan_files(&vec![found(video), found(ignored), found(image)], &extensions);

    assert_eq!(
        entries.iter().map(|entry| entry.path.clone()).collect::<Vec<_>>(),
        vec![path(video), path(image)]
    );
    assert_eq!(
        entries.iter().map(|entry| entry.discovered_order).collect::<Vec<_>>(),
        vec![0, 1]
    );
}

#[test]
fn selected_file_scope_rescans_only_original_selected_files() {
    let first = "/tmp/media/first.jpg";
    let second = "/tmp/media/second.jpg";
    let unselected = "/tmp/media/unselected.jpg";
    let launch = resolve_launch(
        &vec![fact(second, PathKind::File), fact(first, PathKind::File)],
        None,
        None,
    )
    .unwrap();
    let LaunchTarget::SelectedFiles { files, .. } = launch else {
        panic!("expected selected files launch");
    };
    let mut state = AppState::new(
        path("/tmp/media"),
        false,
        false,
        MediaMode::Image,
        texts(&["jpg"]),
        SortMode::Discovered,
        Vec::new(),
    );
    state.selected_files = Some(PathSet::from_paths(&files));

    let MediaRefreshScope::SelectedFiles { files, extensions } = scan_state_scope(&state) else {
        panic!("expected selected files launch");
    };
    let on_disk = [first, second, unselected];
    let looked_at = files
        .iter()
        .filter_map(|file| on_disk.iter().find(|name| path(name) == *file))
        .map(|name| found(name))
        .collect();
    let entries = scan_files(&looked_at, &extensions);

    assert_eq!(
        entries.iter().map(|entry| entry.path.clone()).collect::<Vec<_>>(),
        vec![path(second), path(first)]
    );
}

fn session_options() -> SessionOptions {
    SessionOptions {
        recursive: false,
        include_hidden: false,
        media_mode: MediaMode::Both,
        extensions: texts(&["jpg", "mp4"]),
        sort_mode: SortMode::NameAsc,
    }
}

#[test]
fn sessions_start_on_the_file_that_was_opened() {
    let launch =
        resolve_launch(&vec![fact("/tmp/media/b.mp4", PathKind::File)], None, None).unwrap();
    let entries = vec![clip("/tmp/media/b.mp4", 0), photo("/tmp/media/a.jpg", 1)];

    let (state, autoplay) =
        start_session(&launch, session_options(), entries, None, "/tmp/media/b.mp4").unwrap();

    assert_eq!(state.current_index, 1);
    assert_eq!(state.mode, ViewMode::Preview);
    assert!(autoplay);
}

#[test]
fn sessions_refuse_a_file_that_is_not_listed() {
    let launch =
        resolve_launch(&vec![fact("/tmp/media/b.txt", PathKind::File)], None, None).unwrap();
    let entries = vec![photo("/tmp/media/a.jpg", 0)];

    let error = start_session(&launch, session_options(), entries, None, "/tmp/media/b.txt")
        .unwrap_err();

    assert_eq!(error, LaunchError::Excluded("/tmp/media/b.txt".to_owned()));
}

// Keys.

#[test]
fn marking_selects_the_next_file() {
    let mut app = window(photos(3));
    press(&mut app, Keys { d: true, ..NO_KEYS });
    assert_eq!(app.state.current_index, 1);
    assert!(app.state.is_queued(&path("/tmp/media/0.jpg")));
    assert_eq!(app.status, "queued: 1");
    app.set_current_index(0);
    press(&mut app, Keys { u: true, ..NO_KEYS });
    assert_eq!(app.state.queue_count(), 0);
    assert_eq!(app.state.current_index, 0);
}

#[test]
fn deletion_is_asked_for_and_confirmed() {
    let mut app = window(photos(3));
    let ask = Keys { ctrl: true, r: true, ..NO_KEYS };
    assert!(press(&mut app, ask).is_empty());
    assert!(!app.state.confirm_delete);
    assert_eq!(app.status, "delete queue is empty");

    press(&mut app, Keys { d: true, ..NO_KEYS });
    assert!(press(&mut app, ask).is_empty());
    assert!(app.state.confirm_delete);
    assert_eq!(app.confirm_text(), "Delete 1 queued file(s)?  [y] yes   [n] no");

    assert!(press(&mut app, Keys { d: true, l: true, q: true, ..NO_KEYS }).is_empty());
    assert_eq!(app.state.current_index, 1);
    assert!(app.state.confirm_delete);

    assert_eq!(
        press(&mut app, Keys { y: true, ..NO_KEYS }),
        vec![GuiEffect::DeleteQueued]
    );
    assert!(press(&mut app, Keys { n: true, ..NO_KEYS }).is_empty());
    assert!(!app.state.confirm_delete);
    assert_eq!(app.status, "delete cancelled");
    assert_eq!(app.state.queue_count(), 1);
}

#[test]
fn grid_keys_move_by_rows_and_half_pages() {
    let mut app = window(photos(40));
    app.state.mode = ViewMode::Grid;
    app.lay_out_grid(4, 6);
    press(&mut app, Keys { j: true, ..NO_KEYS });
    assert_eq!(app.state.current_index, 4);
    press(&mut app, Keys { l: true, ..NO_KEYS });
    assert_eq!(app.state.current_index, 5);
    press(&mut app, Keys { ctrl: true, d: true, ..NO_KEYS });
    assert_eq!(app.state.current_index, 17);
    press(&mut app, Keys { ctrl: true, u: true, ..NO_KEYS });
    assert_eq!(app.state.current_index, 5);
    press(&mut app, Keys { end: true, ..NO_KEYS });
    assert_eq!(app.state.current_index, 39);
    assert_eq!(app.row_to_scroll_to(), Some(9));
    press(&mut app, Keys { enter: true, ..NO_KEYS });
    assert_eq!(app.state.mode, ViewMode::Preview);
}

#[test]
fn queue_view_moves_from_mark_to_mark() {
    let mut app = window(photos(6));
    for index in [1, 4] {
        app.set_current_index(index);
        app.state.toggle_queue_current();
    }
    app.set_current_index(0);
    press(&mut app, Keys { shift: true, d: true, ..NO_KEYS });
    assert_eq!(app.state.mode, ViewMode::DeleteQueueGrid);
    assert_eq!(app.grid_indices(), vec![1, 4]);
    assert_eq!(app.state.current_index, 1);
    press(&mut app, Keys { l: true, ..NO_KEYS });
    assert_eq!(app.state.current_index, 4);
    press(&mut app, Keys { home: true, ..NO_KEYS });
    assert_eq!(app.state.current_index, 1);
}

#[test]
fn escape_closes_overlays_then_the_grid_then_the_window() {
    let mut app = window(photos(1));
    app.state.mode = ViewMode::Grid;
    press(&mut app, Keys { question: true, ..NO_KEYS });
    assert!(app.state.show_help_overlay);
    let escape = Keys { escape: true, ..NO_KEYS };
    assert!(press(&mut app, escape).is_empty());
    assert!(!app.state.show_help_overlay);
    assert!(press(&mut app, escape).is_empty());
    assert_eq!(app.state.mode, ViewMode::Preview);
    assert_eq!(press(&mut app, escape), vec![GuiEffect::Close]);
}

#[test]
fn keys_ask_for_work_outside() {
    let mut app = window(photos(2));
    assert_eq!(
        press(&mut app, Keys { n: true, ..NO_KEYS }),
        vec![GuiEffect::Sort(SortMode::NameAsc)]
    );
    assert_eq!(
        press(&mut app, Keys { i: true, ..NO_KEYS }),
        vec![GuiEffect::EnrichCurrent]
    );
    assert!(press(&mut app, Keys { i: true, ..NO_KEYS }).is_empty());
    assert_eq!(
        press(&mut app, Keys { shift: true, r: true, ..NO_KEYS }),
        vec![GuiEffect::Rescan]
    );
    assert!(!app.state.recursive);
    assert_eq!(press(&mut app, Keys { r: true, ..NO_KEYS }), vec![GuiEffect::Rescan]);
    assert!(app.state.recursive);
    assert_eq!(press(&mut app, Keys { period: true, ..NO_KEYS }), vec![GuiEffect::Rescan]);
    assert!(app.state.include_hidden);
    assert_eq!(
        press(&mut app, Keys { f: true, ..NO_KEYS }),
        vec![GuiEffect::Fullscreen(true)]
    );
}

// Videos.

#[test]
fn another_selection_stops_the_video() {
    let mut app = window(vec![clip("/tmp/media/a.mp4", 0), photo("/tmp/media/b.jpg", 1)]);
    press(&mut app, Keys { space: true, ..NO_KEYS });
    assert!(app.active_video_is_playing());
    assert_eq!(app.status, "video playing muted");
    press(&mut app, Keys { l: true, ..NO_KEYS });
    assert!(app.active_video.is_none());
    assert!(app.selection_autoplay_armed);
    press(&mut app, Keys { h: true, ..NO_KEYS });
    assert!(app.active_video_is_playing_for(&path("/tmp/media/a.mp4")));
}

#[test]
fn focus_pauses_and_does_not_resume() {
    let mut app = window(vec![clip("/tmp/media/a.mp4", 0)]);
    app.start_video_playback(path("/tmp/media/a.mp4"));
    app.handle_focus_change(false);
    assert!(!app.active_video_is_playing());
    assert_eq!(app.status, "video paused: window lost focus");
    app.handle_focus_change(true);
    assert!(!app.active_video_is_playing());
}

#[test]
fn a_paused_video_keeps_its_frame() {
    let mut app = window(vec![clip("/tmp/media/a.mp4", 0)]);
    let file = path("/tmp/media/a.mp4");
    app.start_video_playback(file.clone());
    let id = app.active_video.as_ref().unwrap().handle.id();
    let frame = |at: u128| PlaybackEvent::shown(id, file.clone(), at, Some(100 * SECOND));
    assert!(app.handle_video_event(&frame(SECOND)));
    press(&mut app, Keys { space: true, ..NO_KEYS });
    assert!(!app.handle_video_event(&frame(2 * SECOND)));
    press(&mut app, Keys { space: true, ..NO_KEYS });
    assert!(app.handle_video_event(&frame(3 * SECOND)));
    assert_eq!(app.plan_preview(), PreviewPlan::VideoFrame);
}

#[test]
fn seeking_starts_the_video_anew() {
    let mut app = window(vec![clip("/tmp/media/a.mp4", 0)]);
    let file = path("/tmp/media/a.mp4");
    app.start_video_playback(file.clone());
    let id = app.active_video.as_ref().unwrap().handle.id();
    app.handle_video_event(&PlaybackEvent::shown(
        id,
        file.clone(),
        50 * SECOND,
        Some(100 * SECOND),
    ));
    press(&mut app, Keys { o: true, ..NO_KEYS });
    let video = app.active_video.as_ref().unwrap();
    assert_ne!(video.handle.id(), id);
    assert_eq!(video.start_at, 60 * SECOND);
    assert_eq!(app.status, "video fast-forwarded 10% (playing)");
    assert_eq!(app.active_video_progress_for(&path("/tmp/media/b.mp4")), None);
    assert_eq!(
        app.active_current_video_progress(),
        Some(VideoProgress { position: 60 * SECOND, duration: 100 * SECOND })
    );

    let late = PlaybackEvent::shown(id, file, 51 * SECOND, None);
    assert!(!app.handle_video_event(&late));
    assert_eq!(app.active_video.as_ref().unwrap().position, 60 * SECOND);
}

#[test]
fn an_ended_video_leads_to_the_next_one() {
    let mut app = window(vec![
        clip("/tmp/media/a.mp4", 0),
        photo("/tmp/media/b.jpg", 1),
        clip("/tmp/media/c.mp4", 2),
    ]);
    app.auto_next = true;
    app.start_video_playback(path("/tmp/media/a.mp4"));
    let id = app.active_video.as_ref().unwrap().handle.id();
    app.handle_video_event(&PlaybackEvent::finished(id, path("/tmp/media/a.mp4"), None));
    assert_eq!(app.state.current_index, 2);
    assert!(app.active_video_is_playing_for(&path("/tmp/media/c.mp4")));

    let id = app.active_video.as_ref().unwrap().handle.id();
    app.handle_video_event(&PlaybackEvent::finished(id, path("/tmp/media/c.mp4"), None));
    assert_eq!(app.status, "video ended; no next video");
}

#[test]
fn a_repeated_video_starts_anew() {
    let mut app = window(vec![clip("/tmp/media/a.mp4", 0), clip("/tmp/media/b.mp4", 1)]);
    app.auto_next = true;
    press(&mut app, Keys { p: true, ..NO_KEYS });
    assert_eq!(app.status, "repeat enabled");
    app.start_video_playback(path("/tmp/media/a.mp4"));
    let id = app.active_video.as_ref().unwrap().handle.id();
    app.handle_video_event(&PlaybackEvent::finished(id, path("/tmp/media/a.mp4"), None));
    assert_eq!(app.state.current_index, 0);
    assert!(app.active_video_is_playing_for(&path("/tmp/media/a.mp4")));
    assert_ne!(app.active_video.as_ref().unwrap().handle.id(), id);
}

#[test]
fn a_failed_video_says_why() {
    let mut app = window(vec![clip("/tmp/media/a.mp4", 0)]);
    app.start_video_playback(path("/tmp/media/a.mp4"));
    let id = app.active_video.as_ref().unwrap().handle.id();
    let mut failure = PlaybackEvent::failed(id, path("/tmp/media/a.mp4"), "no stream".to_owned());
    failure.ended = false;
    app.handle_video_event(&failure);
    assert_eq!(app.status, "video failed: no stream");
    assert!(!app.active_video_is_playing());
    failure.ended = true;
    app.handle_video_event(&failure);
    assert_eq!(app.status, "video ended");
}

#[test]
fn audio_is_off_until_it_is_switched_on() {
    let mut app = window(vec![clip("/tmp/media/a.mp4", 0)]);
    app.start_video_playback(path("/tmp/media/a.mp4"));
    assert!(app.active_video.as_ref().unwrap().handle.controls().muted);
    press(&mut app, Keys { m: true, ..NO_KEYS });
    assert!(!app.active_video.as_ref().unwrap().handle.controls().muted);
    assert_eq!(app.status, "video unmuted");
}

// Textures.

fn key(file: &str, variant: Variant) -> TexKey {
    TexKey { path: path(file), media_kind: MediaKind::Image(ImageKind::Jpeg), variant }
}

fn decoded(file: &str, variant: Variant, generation: u64, texture: u64) -> DecodeResult {
    DecodeResult {
        key: key(file, variant),
        generation,
        texture: Ok((texture, 4)),
    }
}

#[test]
fn each_texture_is_requested_once() {
    let mut app = window(photos(20));
    app.state.mode = ViewMode::Preview;
    let first = app.ensure_requested();
    assert!(!first.is_empty());
    assert_eq!(first[0].key.path, path("/tmp/media/0.jpg"));
    assert_eq!(first[0].key.variant, Variant::Fit);
    assert!(app.ensure_requested().is_empty());
    assert!(app.finish_frame(0));
}

#[test]
fn original_size_requests_the_current_file_alone() {
    let mut app = window(photos(20));
    press(&mut app, Keys { z: true, ..NO_KEYS });
    let requests = app.ensure_requested();
    assert_eq!(requests.len(), 1);
    assert_eq!(requests[0].key.variant, Variant::Original);
}

#[test]
fn grids_request_visible_rows_and_those_near_them() {
    let mut app = window(photos(100));
    app.state.mode = ViewMode::Grid;
    app.lay_out_grid(5, 4);
    app.set_visible_rows(0, 2);
    assert_eq!(app.ensure_requested().len(), 25);
}

#[test]
fn decoded_files_are_shown() {
    let mut app = window(photos(1));
    assert_eq!(app.plan_preview(), PreviewPlan::Loading);
    app.ensure_requested();
    assert_eq!(app.accept_decoded(decoded("/tmp/media/0.jpg", Variant::Fit, 0, 7)), vec![]);
    assert_eq!(app.plan_preview(), PreviewPlan::Texture(7));
    assert_eq!(app.accept_decoded(decoded("/tmp/media/0.jpg", Variant::Fit, 0, 8)), vec![7]);
}

#[test]
fn failed_files_say_why() {
    let mut app = window(photos(1));
    app.ensure_requested();
    app.accept_decoded(DecodeResult {
        key: key("/tmp/media/0.jpg", Variant::Fit),
        generation: 0,
        texture: Err("broken".to_owned()),
    });
    assert_eq!(app.plan_preview(), PreviewPlan::Failed("broken".to_owned()));
    assert!(app.ensure_requested().is_empty());
}

#[test]
fn a_scan_forgets_what_was_decoded() {
    let mut app = window(photos(2));
    app.ensure_requested();
    app.state.toggle_queue_current();
    app.accept_decoded(decoded("/tmp/media/0.jpg", Variant::Fit, 0, 7));

    app.rescan(Ok(photos(2)));

    assert_eq!(app.state.queue_count(), 0);
    assert_eq!(app.plan_preview(), PreviewPlan::Loading);
    assert_eq!(app.accept_decoded(decoded("/tmp/media/1.jpg", Variant::Fit, 0, 9)), vec![9]);
    assert_eq!(app.plan_preview(), PreviewPlan::Loading);
    assert_eq!(app.status, "scanned 2 media files");
}

#[test]
fn a_failed_scan_keeps_the_list() {
    let mut app = window(photos(2));
    app.state.toggle_queue_current();
    app.rescan(Err("denied".to_owned()));
    assert_eq!(app.state.entries.len(), 2);
    assert_eq!(app.state.queue_count(), 1);
    assert_eq!(app.status, "rescan failed: denied");
}

#[test]
fn the_least_used_texture_makes_room() {
    let mut app = window(photos(40));
    for i in 0..32u64 {
        assert_eq!(
            app.accept_decoded(decoded(&format!("/tmp/media/{i}.jpg"), Variant::Fit, 0, i)),
            vec![]
        );
    }
    app.set_current_index(0);
    assert_eq!(app.plan_preview(), PreviewPlan::Texture(0));
    assert_eq!(
        app.accept_decoded(decoded("/tmp/media/32.jpg", Variant::Fit, 0, 32)),
        vec![1]
    );
}

#[test]
fn texture_sizes_follow_the_variant() {
    assert_eq!(Variant::Fit.cap(), FIT_CAP);
    assert_eq!(Variant::Thumb.cap(), THUMB_CAP);
    assert_eq!(Variant::Original.cap(), u32::MAX);
}

#[test]
fn cells_show_what_is_known_of_their_files() {
    let mut app = window(vec![photo("/tmp/media/a.jpg", 0), clip("/tmp/media/b.mp4", 1)]);
    app.state.mode = ViewMode::Grid;
    app.state.current_index = 1;
    app.state.toggle_queue_current();
    app.accept_decoded(decoded("/tmp/media/a.jpg", Variant::Thumb, 0, 3));

    let first = app.plan_cell(0).unwrap();
    assert_eq!(first.picture, CellPicture::Texture(3));
    assert_eq!(first.border, CellBorder::Plain);
    assert_eq!(first.badge, Some(MediaKind::Image(ImageKind::Jpeg)));
    let second = app.plan_cell(1).unwrap();
    assert_eq!(second.picture, CellPicture::Nothing);
    assert_eq!(second.border, CellBorder::Current);
    assert!(second.queued);
    assert_eq!(app.plan_cell(2), None);

    app.click_cell(0, false);
    assert_eq!(app.state.current_index, 0);
    assert_eq!(app.plan_cell(1).unwrap().border, CellBorder::Queued);
    app.click_cell(1, true);
    assert_eq!(app.state.mode, ViewMode::Preview);
}

#[test]
fn the_status_line_sums_up_the_session() {
    let mut app = window(photos(3));
    app.status = "ready".to_owned();
    assert_eq!(
        app.status_line(),
        "preview  |  1 / 3  |  fit  |  queued: 0  |  sort: Discovered  |  audio: muted  |  \
         auto-next: off  |  ready"
    );
    app.state.entries[0].dimensions = Some((4, 3));
    assert_eq!(
        app.info_text("/tmp/media/0.jpg"),
        Some(
            "0.jpg\npath: /tmp/media/0.jpg\nsize: 1 bytes\ndimensions: 4×3\ntype: JPEG"
                .to_owned()
        )
    );
}

#[test]
fn an_empty_session_says_so() {
    let mut app = window(Vec::new());
    assert_eq!(app.status, empty_media_status("/tmp/media"));
    assert_eq!(app.plan_preview(), PreviewPlan::Empty);
    assert!(app.ensure_requested().is_empty());
    assert!(!app.finish_frame(0));
}

// Live updates.

fn refreshed(old: Vec<MediaEntry>, fresh: Vec<MediaEntry>) -> MediaRefreshOutput {
    prepare_media_refresh(old, fresh, SortMode::Discovered, None)
}

#[test]
fn a_refresh_keeps_what_did_not_change() {
    let mut app = window(photos(3));
    for i in 0..3u64 {
        app.accept_decoded(decoded(&format!("/tmp/media/{i}.jpg"), Variant::Fit, 0, i + 7));
        app.set_current_index(i as usize);
        app.state.toggle_queue_current();
    }
    app.set_current_index(1);
    let mut changed = photo("/tmp/media/2.jpg", 2);
    changed.file_len = 99;

    let freed = app.take_refresh(refreshed(photos(3), vec![photo("/tmp/media/1.jpg", 1), changed]));

    assert_eq!(freed, vec![7, 9]);
    assert_eq!(app.plan_preview(), PreviewPlan::Texture(8));
    assert_eq!(app.state.delete_queue.to_paths(), vec![path("/tmp/media/1.jpg")]);
    assert_eq!(app.state.current_path(), Some(path("/tmp/media/1.jpg")));
    assert_eq!(app.accept_decoded(decoded("/tmp/media/2.jpg", Variant::Fit, 0, 12)), vec![12]);
}

#[test]
fn a_refresh_stops_a_video_that_changed() {
    let old = || vec![clip("/tmp/media/a.mp4", 0), photo("/tmp/media/b.jpg", 1)];
    let mut app = window(old());
    app.start_video_playback(path("/tmp/media/a.mp4"));
    let mut other = photo("/tmp/media/b.jpg", 1);
    other.file_len = 99;
    app.take_refresh(refreshed(old(), vec![clip("/tmp/media/a.mp4", 0), other]));
    assert!(app.active_video_is_playing());
    let mut replaced = clip("/tmp/media/a.mp4", 0);
    replaced.file_len = 99;
    let fresh = vec![replaced, photo("/tmp/media/b.jpg", 1)];
    app.take_refresh(refreshed(old(), fresh));
    assert!(app.active_video.is_none());
}

#[test]
fn refreshes_wait_while_a_video_is_paused() {
    let mut app = window(vec![clip("/tmp/media/a.mp4", 0)]);
    assert!(!app.refresh_waits());
    press(&mut app, Keys { space: true, ..NO_KEYS });
    assert!(!app.refresh_waits());
    press(&mut app, Keys { space: true, ..NO_KEYS });
    assert!(app.refresh_waits());
    app.state.mode = ViewMode::Grid;
    assert!(!app.refresh_waits());
}

#[test]
fn pausing_cancels_previews_and_keeps_what_is_decoded() {
    let mut entries = vec![clip("/tmp/media/a.mp4", 0)];
    entries.extend(photos(6));
    let mut app = window(entries);
    app.ensure_requested();
    app.accept_decoded(decoded("/tmp/media/0.jpg", Variant::Fit, 0, 7));
    press(&mut app, Keys { space: true, ..NO_KEYS });
    press(&mut app, Keys { space: true, ..NO_KEYS });
    app.cancel_previews();
    assert!(app.inflight.is_empty());
    assert_eq!(app.ensure_requested().len(), 1);
    app.set_current_index(1);
    assert_eq!(app.plan_preview(), PreviewPlan::Texture(7));
}

#[test]
fn newcomers_are_not_decoded_ahead() {
    let mut app = window(photos(2));
    let mut fresh = photos(2);
    fresh.push(photo("/tmp/media/new.jpg", 2));
    app.take_refresh(refreshed(photos(2), fresh));
    let wanted: Vec<MediaPath> =
        app.ensure_requested().into_iter().map(|request| request.key.path).collect();
    assert_eq!(wanted, vec![path("/tmp/media/0.jpg"), path("/tmp/media/1.jpg")]);
    app.set_current_index(2);
    let wanted = app.ensure_requested();
    assert_eq!(wanted.len(), 1);
    assert_eq!(wanted[0].key.path, path("/tmp/media/new.jpg"));
    assert!(app.arrived.is_empty());
}

// Deletion.

fn outcome(file: &str, modified: Option<i128>) -> FileOutcome {
    FileOutcome {
        probe: FileProbe {
            canonical: Ok(path(file)),
            metadata: Ok(FileFacts { is_symlink: false, is_file: true, len: 1, modified }),
        },
        removal_error: None,
    }
}

fn queued_state(file: &str) -> AppState {
    let mut state = app_state(vec![photo(file, 0)], 0);
    state.delete_queue.insert(&path(file));
    state
}

#[test]
fn dry_run_keeps_file_and_entries() {
    let mut state = queued_state("/tmp/media/a.jpg");

    let report = delete_queued(&mut state, true, &vec![outcome("/tmp/media/a.jpg", Some(5))]);

    assert!(report.dry_run);
    assert_eq!(state.entries.len(), 1);
    assert_eq!(state.delete_queue.len(), 1);
}

#[test]
fn real_delete_removes_file_and_entry() {
    let mut state = queued_state("/tmp/media/a.jpg");

    let report = delete_queued(&mut state, false, &vec![outcome("/tmp/media/a.jpg", Some(5))]);

    assert!(report.failed.is_empty());
    assert_eq!(report.deleted, vec![path("/tmp/media/a.jpg")]);
    assert!(state.entries.is_empty());
    assert!(state.delete_queue.is_empty());
}

#[test]
fn modified_file_is_not_deleted() {
    let mut state = queued_state("/tmp/media/a.jpg");
    state.entries[0].modified = Some(0);
    let seen = outcome("/tmp/media/a.jpg", Some(5));
    assert!(check_deletion(&state, &path("/tmp/media/a.jpg"), &seen.probe).is_err());

    let report = delete_queued(&mut state, false, &vec![seen]);

    assert!(!report.failed.is_empty());
    assert_eq!(state.entries.len(), 1);
}

#[test]
fn dry_run_delete_keeps_files() {
    let mut state = queued_state("/tmp/media/sample.png");

    let report =
        delete_queued(&mut state, true, &vec![outcome("/tmp/media/sample.png", Some(5))]);

    assert!(report.dry_run);
    assert_eq!(state.entries.len(), 1);
}

#[test]
fn real_delete_removes_queued_file() {
    let mut state = queued_state("/tmp/media/sample.png");

    let report =
        delete_queued(&mut state, false, &vec![outcome("/tmp/media/sample.png", Some(5))]);

    assert!(report.failed.is_empty());
    assert!(state.entries.is_empty());
}

#[test]
fn real_delete_removes_queued_video_file() {
    let mut state = app_state(vec![clip("/tmp/media/sample.mp4", 0)], 0);
    state.toggle_queue_current();

    let report =
        delete_queued(&mut state, false, &vec![outcome("/tmp/media/sample.mp4", Some(5))]);

    assert!(report.failed.is_empty());
    assert!(state.entries.is_empty());
}

#[test]
fn unsafe_deletions_are_refused() {
    let file = "/tmp/media/a.jpg";
    let state = queued_state(file);
    let refused = |probe: FileProbe| check_deletion(&state, &path(file), &probe).is_err();
    let facts = FileFacts { is_symlink: false, is_file: true, len: 1, modified: Some(5) };
    let with = |facts: FileFacts| FileProbe { canonical: Ok(path(file)), metadata: Ok(facts) };

    assert!(check_deletion(&state, &path(file), &with(facts)).is_ok());
    assert!(refused(with(FileFacts { is_symlink: true, ..facts })));
    assert!(refused(with(FileFacts { is_file: false, ..facts })));
    assert!(refused(with(FileFacts { len: 2, ..facts })));
    assert!(refused(with(FileFacts { modified: Some(6), ..facts })));
    assert!(!refused(with(FileFacts { modified: None, ..facts })));
    assert!(refused(FileProbe { canonical: Ok(path("/elsewhere/a.jpg")), metadata: Ok(facts) }));
    assert!(refused(FileProbe { canonical: Err("gone".to_owned()), metadata: Ok(facts) }));
    assert!(refused(FileProbe { canonical: Ok(path(file)), metadata: Err("gone".to_owned()) }));
    assert_eq!(
        check_deletion(&state, &path("/tmp/media/b.jpg"), &with(facts)),
        Err("not discovered in current scan".to_owned())
    );
}

#[test]
fn deletions_stay_inside_the_selected_files() {
    let file = "/tmp/media/a.jpg";
    let mut state = queued_state(file);
    state.selected_files = Some(PathSet::from_paths(&vec![path("/tmp/media/b.jpg")]));
    let seen = outcome(file, Some(5));
    assert!(check_deletion(&state, &path(file), &seen.probe).is_err());
    state.selected_files = Some(PathSet::from_paths(&vec![path(file)]));
    assert!(check_deletion(&state, &path(file), &seen.probe).is_ok());
}

#[test]
fn the_window_reports_a_deletion() {
    let mut app = window(photos(3));
    press(&mut app, Keys { d: true, ..NO_KEYS });
    press(&mut app, Keys { d: true, ..NO_KEYS });
    press(&mut app, Keys { ctrl: true, r: true, ..NO_KEYS });
    let mut failing = outcome("/tmp/media/1.jpg", Some(5));
    failing.removal_error = Some("denied".to_owned());

    let report = app.confirm_delete(&vec![outcome("/tmp/media/0.jpg", Some(5)), failing]);

    assert_eq!(report.deleted, vec![path("/tmp/media/0.jpg")]);
    assert_eq!(report.failed, vec![(path("/tmp/media/1.jpg"), "denied".to_owned())]);
    assert_eq!(app.status, "deleted 1; failed 1");
    assert_eq!(app.state.entries.len(), 2);
    assert_eq!(app.state.queue_count(), 1);
    assert!(!app.state.confirm_delete);
}

fn sized(file: &str, number: u64, bytes: usize) -> DecodeResult {
    DecodeResult {
        key: key(file, Variant::Original),
        generation: 0,
        texture: Ok((number, bytes)),
    }
}

#[test]
fn textures_stay_within_their_bytes() {
    let mut app = window(photos(4));
    let third = PREVIEW_BYTES as usize / 3;
    assert_eq!(app.accept_decoded(sized("/tmp/media/0.jpg", 1, third)), vec![]);
    assert_eq!(app.accept_decoded(sized("/tmp/media/1.jpg", 2, third)), vec![]);
    assert_eq!(app.accept_decoded(sized("/tmp/media/2.jpg", 3, third)), vec![]);
    assert_eq!(app.accept_decoded(sized("/tmp/media/3.jpg", 4, third)), vec![1]);
    assert_eq!(app.previews.bytes(), 3 * third as u128);
    let above = PREVIEW_BYTES as usize + 1;
    assert_eq!(app.accept_decoded(sized("/tmp/media/0.jpg", 5, above)), vec![2, 3, 4]);
    assert_eq!(app.previews.len(), 1);
    assert_eq!(app.accept_decoded(sized("/tmp/media/0.jpg", 6, 8)), vec![5]);
    assert_eq!(app.previews.bytes(), 8);
}

#[test]
fn withdrawn_requests_are_made_again() {
    let mut app = window(photos(1));
    let requests = app.ensure_requested();
    assert_eq!(requests.len(), 1);
    assert!(app.ensure_requested().is_empty());
    app.withdraw(&requests[0]);
    assert_eq!(app.ensure_requested().len(), 1);
}

// Refreshes.

#[test]
fn one_request_covers_all_changes() {
    let mut schedule = RefreshSchedule::new();
    assert_eq!(schedule.frame(false, &vec![], false).request, None);
    for _ in 0..3 {
        let plan = schedule.frame(true, &vec![], true);
        assert_eq!(plan.request, None);
    }
    assert!(schedule.needed);
    assert_eq!(schedule.frame(false, &vec![], false).request, Some(1));
    assert_eq!(schedule.frame(false, &vec![], false).request, None);
}

#[test]
fn results_of_the_last_request_alone_are_taken() {
    let mut schedule = RefreshSchedule::new();
    assert_eq!(schedule.frame(true, &vec![], false).request, Some(1));
    let plan = schedule.frame(false, &vec![0, 1], false);
    assert_eq!(plan.accepted, vec![false, true]);
    assert_eq!(plan.request, None);
    let plan = schedule.frame(false, &vec![1], true);
    assert_eq!(plan.accepted, vec![false]);
    assert!(plan.waits_now);
    assert!(!schedule.frame(false, &vec![], true).waits_now);
    assert_eq!(schedule.frame(false, &vec![], false).request, Some(2));
}

#[test]
fn a_rescan_forgets_what_changed() {
    let mut schedule = RefreshSchedule::new();
    schedule.frame(true, &vec![], true);
    schedule.rescan(true);
    assert_eq!(schedule.frame(false, &vec![], false).request, None);
    assert_eq!(schedule.frame(false, &vec![0], false).accepted, vec![false]);
    schedule.frame(true, &vec![], true);
    schedule.rescan(false);
    assert_eq!(schedule.frame(false, &vec![], false).request, Some(3));
}

// The browser.

fn listed(file: &str, kind: BrowserEntryKind) -> BrowserEntry {
    let last = file.rsplit('/').next().unwrap();
    BrowserEntry { path: path(file), display_name: last.to_owned(), kind }
}

fn listing() -> Vec<BrowserEntry> {
    let jpeg = BrowserEntryKind::Media(MediaKind::Image(ImageKind::Jpeg));
    vec![
        listed("/tmp/media/folder", BrowserEntryKind::Directory),
        listed("/tmp/media/0.jpg", jpeg),
        listed("/tmp/media/1.jpg", jpeg),
        listed("/tmp/media/note.txt", BrowserEntryKind::UnsupportedFile),
    ]
}

fn browsing() -> BrowserPane {
    let mut pane = BrowserPane::new(SortMode::NameAsc);
    pane.rows = 4;
    pane.take_listing(path("/tmp/media"), Some(path("/tmp/media/0.jpg")), Ok(listing()));
    pane
}

fn selected(pane: &BrowserPane) -> MediaPath {
    pane.browser.as_ref().unwrap().selected_path().unwrap()
}

fn lists(effect: Option<BrowserEffect>) -> Option<(MediaPath, Option<MediaPath>)> {
    match effect {
        Some(BrowserEffect::List { directory, preferred }) => Some((directory, preferred)),
        _ => None,
    }
}

#[test]
fn the_browser_opens_around_what_is_shown_and_closes() {
    let mut pane = BrowserPane::new(SortMode::NameAsc);
    let mut app = app_state(photos(2), 1);
    app.mode = ViewMode::Preview;
    let toggle = Keys { e: true, ..NO_KEYS };
    let (left, effect) = pane.handle_keys(&app, &toggle);
    assert_eq!(left, toggle);
    assert_eq!(lists(effect), Some((path("/tmp/media"), Some(path("/tmp/media/1.jpg")))));
    pane.take_listing(path("/tmp/media"), Some(path("/tmp/media/1.jpg")), Ok(listing()));
    assert_eq!(selected(&pane), path("/tmp/media/1.jpg"));
    assert_eq!(pane.focus(), Some(BrowserPaneFocus::Browser));
    let (_, effect) = pane.handle_keys(&app, &toggle);
    assert!(effect.is_none());
    assert!(pane.browser.is_none());
}

#[test]
fn a_focused_browser_takes_the_keys_that_move() {
    let mut pane = browsing();
    let app = app_state(photos(2), 0);
    let keys = Keys { j: true, d: true, ..NO_KEYS };
    let (left, effect) = pane.handle_keys(&app, &keys);
    assert_eq!(left, Keys { d: true, ..NO_KEYS });
    assert!(matches!(effect, Some(BrowserEffect::Show)));
    assert_eq!(selected(&pane), path("/tmp/media/1.jpg"));
    pane.handle_keys(&app, &Keys { ctrl: true, u: true, ..NO_KEYS });
    assert_eq!(selected(&pane), path("/tmp/media/folder"));
    let (_, effect) = pane.handle_keys(&app, &Keys { k: true, ..NO_KEYS });
    assert!(effect.is_none());

    pane.handle_keys(&app, &Keys { ctrl: true, l: true, ..NO_KEYS });
    assert_eq!(pane.focus(), Some(BrowserPaneFocus::Media));
    let (left, effect) = pane.handle_keys(&app, &keys);
    assert_eq!(left, keys);
    assert!(effect.is_none());
    let (left, _) = pane.handle_keys(&app, &Keys { ctrl: true, h: true, ..NO_KEYS });
    assert_eq!(left, Keys { ctrl: true, ..NO_KEYS });
    assert_eq!(pane.focus(), Some(BrowserPaneFocus::Browser));
}

#[test]
fn folders_are_entered_and_left() {
    let mut pane = browsing();
    let app = app_state(photos(2), 0);
    let (_, effect) = pane.handle_keys(&app, &Keys { l: true, ..NO_KEYS });
    assert!(effect.is_none());
    pane.handle_keys(&app, &Keys { k: true, ..NO_KEYS });
    let (_, effect) = pane.handle_keys(&app, &Keys { l: true, ..NO_KEYS });
    assert_eq!(lists(effect), Some((path("/tmp/media/folder"), None)));
    pane.take_listing(path("/tmp/media/folder"), None, Ok(vec![]));
    let (_, effect) = pane.handle_keys(&app, &Keys { h: true, ..NO_KEYS });
    assert_eq!(lists(effect), Some((path("/tmp/media"), Some(path("/tmp/media/folder")))));
    pane.take_listing(path("/tmp/media"), None, Ok(listing()));
    assert_eq!(selected(&pane), path("/tmp/media/folder"));
}

#[test]
fn enter_opens_a_folder_or_focuses_the_preview() {
    let mut pane = browsing();
    let app = app_state(photos(2), 0);
    let enter = Keys { enter: true, ..NO_KEYS };
    let (left, effect) = pane.handle_keys(&app, &enter);
    assert_eq!(left, NO_KEYS);
    assert!(effect.is_none());
    assert_eq!(pane.focus(), Some(BrowserPaneFocus::Media));
    let mut pane = browsing();
    pane.handle_keys(&app, &Keys { up: true, ..NO_KEYS });
    let (_, effect) = pane.handle_keys(&app, &enter);
    assert_eq!(lists(effect), Some((path("/tmp/media/folder"), None)));
    assert_eq!(pane.focus(), Some(BrowserPaneFocus::Browser));
}

#[test]
fn the_focused_pane_is_sorted() {
    let mut pane = browsing();
    let app = app_state(photos(2), 0);
    let here = Some((path("/tmp/media"), Some(path("/tmp/media/0.jpg"))));
    let (left, effect) = pane.handle_keys(&app, &Keys { n: true, ..NO_KEYS });
    assert_eq!(left, NO_KEYS);
    assert_eq!(lists(effect), here);
    assert_eq!(pane.sort_mode, SortMode::NameDesc);
    pane.handle_keys(&app, &Keys { t: true, ..NO_KEYS });
    assert_eq!(pane.sort_mode, SortMode::Newest);
    let (left, effect) = pane.handle_keys(&app, &Keys { period: true, ..NO_KEYS });
    assert!(left.period);
    assert_eq!(lists(effect), here);
}

#[test]
fn a_confirmation_has_all_keys() {
    let mut pane = browsing();
    let mut app = app_state(photos(2), 0);
    app.confirm_delete = true;
    let keys = Keys { n: true, e: true, ..NO_KEYS };
    let (left, effect) = pane.handle_keys(&app, &keys);
    assert_eq!(left, keys);
    assert!(effect.is_none());
    assert_eq!(pane.sort_mode, SortMode::NameAsc);
}

#[test]
fn failed_and_refreshed_listings_keep_the_selection() {
    let mut pane = browsing();
    pane.take_listing(path("/tmp/gone"), None, Err("denied".to_owned()));
    assert_eq!(pane.error, Some("denied".to_owned()));
    assert_eq!(selected(&pane), path("/tmp/media/0.jpg"));
    let mut entries = listing();
    entries.remove(0);
    pane.take_refresh(&path("/tmp/other"), Vec::new());
    assert_eq!(selected(&pane), path("/tmp/media/0.jpg"));
    pane.take_refresh(&path("/tmp/media"), entries.clone());
    assert_eq!(selected(&pane), path("/tmp/media/0.jpg"));
    assert_eq!(pane.error, None);
    entries.remove(0);
    pane.take_refresh(&path("/tmp/media"), entries);
    assert_eq!(selected(&pane), path("/tmp/media/1.jpg"));
}

#[test]
fn the_other_pane_follows_the_browser() {
    let mut app = window(photos(2));
    let mut pane = browsing();
    let mut target = pane_target(&app.state, pane.browser.as_ref().unwrap());
    assert!(matches!(target, PaneTarget::File(ref file) if *file == path("/tmp/media/0.jpg")));
    app.state.directory = path("/tmp");
    target = pane_target(&app.state, pane.browser.as_ref().unwrap());
    match target {
        PaneTarget::Scan { directory, file } => {
            assert_eq!(directory, path("/tmp/media"));
            assert_eq!(file, Some(path("/tmp/media/0.jpg")));
        }
        _ => panic!("expected a scan"),
    }
    pane.handle_keys(&app.state, &Keys { k: true, ..NO_KEYS });
    target = pane_target(&app.state, pane.browser.as_ref().unwrap());
    assert!(matches!(target, PaneTarget::Scan { file: None, .. }));

    let second = path("/tmp/media/1.jpg");
    app.show_directory(path("/tmp/media"), "media".to_owned(), Some(&second), photos(2));
    assert_eq!(app.state.directory, path("/tmp/media"));
    assert_eq!(app.state.current_path(), Some(second));
    assert_eq!(app.state.mode, ViewMode::Preview);
    app.show_file(None);
    assert_eq!(app.state.mode, ViewMode::Grid);
    app.show_file(Some(&path("/tmp/media/0.jpg")));
    assert_eq!(app.state.current_path(), Some(path("/tmp/media/0.jpg")));
    assert_eq!(app.state.mode, ViewMode::Preview);
}

#[test]
fn the_browser_view_opens_on_what_is_launched() {
    let folder = LaunchTarget::Directory { directory: path("/tmp/media"), initial_file: None };
    let file = LaunchTarget::Directory {
        directory: path("/tmp/media"),
        initial_file: Some(path("/tmp/media/0.jpg")),
    };
    let files = LaunchTarget::SelectedFiles {
        directory: path("/tmp/media"),
        files: vec![path("/tmp/media/0.jpg")],
    };
    let target = |launch: &LaunchTarget| browser_target_for_launch(launch, CliView::Browser);
    assert_eq!(target(&folder), Some(path("/tmp/media")));
    assert_eq!(target(&file), Some(path("/tmp/media/0.jpg")));
    assert_eq!(target(&files), None);
    assert_eq!(browser_target_for_launch(&folder, CliView::Auto), None);
}

#[test]
fn seek_steps_are_those_of_seconds_as_numbers() {
    let mut n: u64 = 7;
    for _ in 0..2000 {
        n = n.wrapping_mul(6364136223846793005).wrapping_add(1442695040888963407);
        for nanos in [n >> 1, n >> 20, n >> 40, n >> 55] {
            let duration = Duration::from_nanos(nanos);
            let step = (!duration.is_zero())
                .then(|| Duration::from_secs_f64(duration.as_secs_f64() * 0.10).as_nanos());
            assert_eq!(video_seek_step(nanos as u128), step);
        }
    }
    assert_eq!(video_seek_step(15), Some(1));
    assert_eq!(video_seek_step(25), Some(3));
    assert_eq!(video_seek_step(100 * SECOND), Some(10 * SECOND));
}
