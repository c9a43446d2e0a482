//! The terminal viewer and its thumbnails, refreshes of the list, and notifications.

use std::cell::Cell;

use cullr::app::{App, AppEffect};
use cullr::assoc::{KeyMap, KeySet};
use cullr::cli::BackendChoice;
use cullr::delete::{removal_due, FileFacts, FileOutcome, FileProbe};
use cullr::gui::launch::SessionOptions;
use cullr::image_cache::MemoryImageCache;
use cullr::input::{action_for_key, Action, KeyCode, KeyEvent, KeyModifiers};
use cullr::path::MediaPath;
use cullr::refresh::{
    prepare_media_refresh, prepare_media_refresh_cancellable, reconcile_media_cancellable,
    BrowserRefreshScope, MediaRefreshOutput, MediaRefreshScope, RefreshResult, RefreshService,
};
use cullr::renderer::{
    backend_label, centered_rect, preflight, renderer_usable, PreflightError, ProtocolType,
};
use cullr::scanner::ScanOptions;
use cullr::slots::SlotCache;
use cullr::state::{
    AppState, FileName, ImageKind, MediaEntry, MediaKind, MediaMode, SortMode, ViewMode, ZoomMode,
};
use cullr::thumbnail::{
    PreviewKey, PreviewResult, ProtocolCache, RenderResult, ThumbKey, ThumbResult,
    ThumbnailService, ThumbnailStatus,
};
use cullr::ui::confirm::{confirm_question, confirm_rect};
use cullr::ui::grid::{cell_rect, cell_title, compute_grid_layout, truncate, turn_to_current};
use cullr::ui::overlays::{entry_date_text, floating_rect, info_lines};
use cullr::ui::preview::{
    neighbor_indices, prefetch_after_current, preview_label, should_eager_prefetch_previews,
};
use cullr::ui::{center, split_screen, status_line, Rect, Size};
use cullr::watcher::{
    event_disposition, normalized_paths, path_is_within, watch_difference, watch_paths, AccessKind,
    AccessMode,
    CreateKind, Debouncer, EventDisposition, EventKind, FileStamp, ModifyKind, PendingMessages,
    RawMessages, RemoveKind, SettleRequirement, WatchEvent, WatchMessage, WatchPath,
};

const SECOND: i128 = 1_000_000_000;

fn path(text: &str) -> MediaPath {
    let mut names: Vec<Vec<u8>> = Vec::new();
    if text.starts_with('/') {
        names.push(b"/".to_vec());
    }
    for part in text.split('/') {
        if !part.is_empty() {
            names.push(part.as_bytes().to_vec());
        }
    }
    MediaPath { names }
}

fn media_entry(file: &str, discovered_order: usize) -> MediaEntry {
    MediaEntry {
        path: path(file),
        file_name: FileName {
            text: Some(file.to_owned()),
            lossy: file.to_owned(),
            quoted: format!("{file:?}"),
        },
        display_name: file.to_owned(),
        extension: Some("jpg".to_owned()),
        file_len: 0,
        created: None,
        modified: None,
        discovered_order,
        dimensions: None,
        media_kind: MediaKind::Image(ImageKind::Jpeg),
        exif_date: None,
        exif_orientation: None,
        dimensions_attempted: false,
        exif_attempted: false,
    }
}

fn sized(index: usize, file_len: u64) -> MediaEntry {
    let mut entry = media_entry(&format!("{index}.jpg"), index);
    entry.file_len = file_len;
    entry
}

fn entry() -> MediaEntry {
    let mut entry = media_entry("a.jpg", 0);
    entry.file_len = 10;
    entry.modified = Some(SECOND);
    entry
}

fn state(entries: Vec<MediaEntry>) -> AppState {
    AppState::new(
        path("/media"),
        false,
        false,
        MediaMode::Image,
        vec!["jpg".to_owned()],
        SortMode::Discovered,
        entries,
    )
}

// Keys of the terminal.

#[test]
fn maps_required_global_keys() {
    assert_eq!(
        action_for_key(KeyEvent::new(KeyCode::Char('D'), KeyModifiers::Plain), false),
        Action::ShowDeleteQueueGrid
    );
    assert_eq!(
        action_for_key(KeyEvent::new(KeyCode::Char('d'), KeyModifiers::Control), false),
        Action::PageDown
    );
    assert_eq!(
        action_for_key(KeyEvent::new(KeyCode::Char('u'), KeyModifiers::Control), false),
        Action::PageUp
    );
    assert_eq!(
        action_for_key(KeyEvent::new(KeyCode::Char('r'), KeyModifiers::Control), false),
        Action::ConfirmDeleteQueued
    );
}

#[test]
fn confirmation_modal_captures_n() {
    assert_eq!(
        action_for_key(KeyEvent::new(KeyCode::Char('n'), KeyModifiers::Plain), true),
        Action::ConfirmNo
    );
    assert_eq!(
        action_for_key(KeyEvent::new(KeyCode::Char('n'), KeyModifiers::Plain), false),
        Action::ToggleNameSort
    );
}

#[test]
fn the_terminal_viewer_starts_sorted() {
    let options = SessionOptions {
        recursive: true,
        include_hidden: false,
        media_mode: MediaMode::Image,
        extensions: vec!["jpg".to_owned()],
        sort_mode: SortMode::NameAsc,
    };
    let entries = vec![media_entry("b.jpg", 0), media_entry("a.jpg", 1)];
    let app = App::new(path("/media"), options, entries, Some("en".to_owned()), true);
    assert_eq!(app.state.current_path(), Some(path("a.jpg")));
    assert_eq!(app.state.mode, ViewMode::Preview);
    assert!(app.state.recursive && app.dry_run_delete);
}

#[test]
fn only_the_answer_deletes() {
    let mut app = App { state: state(vec![entry()]), locale: None, dry_run_delete: false };
    assert_eq!(app.handle_action(Action::ConfirmDeleteQueued), AppEffect::Nothing);
    assert!(!app.state.confirm_delete);
    app.handle_action(Action::ToggleQueueCurrent);
    assert_eq!(app.state.status_message, Some("queued: 1".to_owned()));
    assert_eq!(app.handle_action(Action::ConfirmDeleteQueued), AppEffect::Nothing);
    assert!(app.state.confirm_delete);
    assert_eq!(app.handle_action(Action::ConfirmYes), AppEffect::DeleteQueued);
    app.handle_action(Action::ConfirmNo);
    assert!(!app.state.confirm_delete);
    assert_eq!(app.state.status_message, Some("delete cancelled".to_owned()));
}

#[test]
fn the_terminal_viewer_takes_results() {
    let mut app = App { state: state(vec![entry()]), locale: None, dry_run_delete: true };
    app.handle_action(Action::ToggleQueueCurrent);
    let outcome = FileOutcome {
        probe: FileProbe {
            canonical: Ok(path("/media/a.jpg")),
            metadata: Ok(FileFacts {
                is_symlink: false,
                is_file: true,
                len: 10,
                modified: Some(SECOND),
            }),
        },
        removal_error: None,
    };
    let report = app.finish_delete(&vec![outcome]);
    assert!(report.dry_run);
    assert_eq!(app.state.entries.len(), 1);
    assert_eq!(
        app.handle_action(Action::ToggleTimeSort),
        AppEffect::Sort(SortMode::Newest)
    );
    app.finish_sort(SortMode::Newest);
    assert_eq!(app.state.status_message, Some("sort: Newest".to_owned()));
    app.finish_rescan(vec![media_entry("b.jpg", 0), media_entry("c.jpg", 1)]);
    assert_eq!(app.state.status_message, Some("scanned 2 images".to_owned()));
    assert_eq!(app.state.queue_count(), 0);
    app.handle_resize();
    assert_eq!(app.state.status_message, Some("terminal resized".to_owned()));
}

// Thumbnails.

#[test]
fn resize_key_changes_when_cell_size_changes() {
    let entry = entry();

    let small = ThumbKey::for_entry(&entry, 10, 10, "native");
    let large = ThumbKey::for_entry(&entry, 20, 10, "native");

    assert_ne!(small, large);
}

#[test]
fn preview_key_changes_with_zoom_and_backend() {
    let entry = entry();

    let fit = PreviewKey::for_entry(&entry, 80, 24, ZoomMode::Fit, "native:kitty");
    let original = PreviewKey::for_entry(&entry, 80, 24, ZoomMode::OriginalPixels, "native:kitty");
    let other_backend = PreviewKey::for_entry(&entry, 80, 24, ZoomMode::Fit, "native:sixel");

    assert_ne!(fit, original);
    assert_ne!(fit, other_backend);
}

fn service() -> ThumbnailService {
    ThumbnailService {
        thumbnail_cache: ProtocolCache::new(1, 1024),
        preview_cache: ProtocolCache::new(1, 1024),
        thumbnail_failures: KeyMap::new(),
        preview_failures: KeyMap::new(),
        thumbnail_inflight: KeySet::new(),
        preview_inflight: KeySet::new(),
        configured: false,
        backend_id: "native".to_owned(),
    }
}

fn thumbnail(key: &ThumbKey, generation: u64) -> ThumbResult {
    ThumbResult { key: key.clone(), generation, result: Ok(1), bytes: 4 }
}

#[test]
fn thumbnail_generation_mismatch_discards_stale_result() {
    let mut service = ThumbnailService::new(1);
    let key = ThumbKey::for_entry(&entry(), 10, 10, "native");
    let accepted = service.accept_thumbnail_result(thumbnail(&key, 1), 2);

    assert!(!accepted);
    assert!(!service.thumbnail_cache.contains(&key.slot_key()));
}

#[test]
fn poll_finished_reports_cache_changes() {
    let mut service = service();
    let key = ThumbKey::for_entry(&entry(), 10, 10, "native");

    assert!(service.poll_finished(vec![RenderResult::Thumbnail(thumbnail(&key, 2))], 2));
    assert!(service.thumbnail_cache.contains(&key.slot_key()));
}

#[test]
fn poll_finished_ignores_stale_results() {
    let mut service = service();
    let key = ThumbKey::for_entry(&entry(), 10, 10, "native");

    assert!(!service.poll_finished(vec![RenderResult::Thumbnail(thumbnail(&key, 1))], 2));
    assert!(!service.thumbnail_cache.contains(&key.slot_key()));
}

#[test]
fn preview_generation_mismatch_discards_stale_result() {
    let mut service = ThumbnailService::new(1);
    let key = PreviewKey::for_entry(&entry(), 80, 24, ZoomMode::Fit, "native");
    let accepted = service.accept_preview_result(
        PreviewResult { key: key.clone(), generation: 1, result: Ok(1), bytes: 4 },
        2,
    );

    assert!(!accepted);
    assert!(!service.preview_cache.contains(&key.slot_key()));
}

#[test]
fn preview_cache_capacity_can_expand_for_tiny_folders() {
    let mut service = ThumbnailService::new(1);

    assert!(service.preview_cache_capacity() >= 5);
    service.ensure_preview_capacity(16);

    assert!(service.preview_cache_capacity() >= 16);
    assert_eq!(service.preview_budget_bytes(), 1024 * 1024);
}

#[test]
fn thumbnails_are_asked_for_once() {
    let mut service = ThumbnailService::new(1);
    let (status, job) = service.get_or_request_thumbnail(&entry(), 10, 10, 0, true);
    assert!(matches!(status, ThumbnailStatus::Failed(_) | ThumbnailStatus::Loading));
    assert!(job.is_none());

    service.configure_renderer("native".to_owned());
    let (status, job) = service.get_or_request_thumbnail(&entry(), 10, 10, 0, true);
    assert!(matches!(status, ThumbnailStatus::Loading));
    assert!(job.is_some());
    assert!(service.has_inflight());
    assert!(service.prefetch_thumbnail(&entry(), 10, 10, 0, true).is_none());

    let key = ThumbKey::for_entry(&entry(), 10, 10, "native");
    service.poll_finished(vec![RenderResult::Thumbnail(thumbnail(&key, 0))], 0);
    let (status, job) = service.get_or_request_thumbnail(&entry(), 10, 10, 0, true);
    assert!(matches!(status, ThumbnailStatus::Ready { protocol: 1, .. }));
    assert!(job.is_none());
}

#[test]
fn failed_thumbnails_say_why() {
    let mut service = ThumbnailService::new(1);
    service.configure_renderer("native".to_owned());
    service.get_or_request_thumbnail(&entry(), 10, 10, 0, true);
    let key = ThumbKey::for_entry(&entry(), 10, 10, "native");
    service.accept_thumbnail_result(
        ThumbResult { key, generation: 0, result: Err("broken".to_owned()), bytes: 0 },
        0,
    );
    let (status, job) = service.get_or_request_thumbnail(&entry(), 10, 10, 0, true);
    assert!(matches!(status, ThumbnailStatus::Failed(error) if error == "broken"));
    assert!(job.is_none());
}

#[test]
fn caches_stay_inside_their_budget() {
    let mut cache = ProtocolCache::new(8, 100);
    let key = |width: u16| ThumbKey::for_entry(&entry(), width, 1, "native").slot_key();
    cache.insert(key(1), 1, 60);
    cache.insert(key(2), 2, 30);
    assert_eq!(cache.get(&key(1)), Some(1));
    cache.insert(key(3), 3, 40);
    assert!(!cache.contains(&key(2)));
    assert!(cache.contains(&key(1)));
    assert_eq!(cache.get(&key(3)), Some(3));
    cache.clear();
    assert!(!cache.contains(&key(1)));

    let mut images = MemoryImageCache::new(100);
    let first = ThumbKey::for_entry(&entry(), 1, 1, "native");
    let second = ThumbKey::for_entry(&entry(), 2, 1, "native");
    images.insert(first.clone(), 1, 60);
    images.insert(second.clone(), 2, 60);
    assert!(!images.contains(&first));
    assert_eq!(images.get(&second), Some(2));
}

#[test]
fn slots_leave_in_the_order_of_their_use() {
    let key = |width: u16| ThumbKey::for_entry(&entry(), width, 1, "native").slot_key();
    let mut cache = SlotCache::new(2);
    assert_eq!(cache.put(key(1), (1, 10)), None);
    assert_eq!(cache.put(key(2), (2, 20)), None);
    assert_eq!(cache.get(&key(1)), Some((1, 10)));
    let gone = cache.push(key(3), (3, 30)).unwrap();
    assert_eq!(gone.1, (2, 20));
    assert!(!cache.contains(&key(2)));
    assert_eq!(cache.put(key(3), (4, 40)), Some((3, 30)));
    assert_eq!(cache.capacity(), 2);
    cache.resize(1);
    assert!(!cache.contains(&key(1)));
    assert_eq!(cache.pop_lru().unwrap().1, (4, 40));
    assert!(cache.pop_lru().is_none());
    cache.put(key(5), (5, 50));
    assert_eq!(cache.take(&key(4)), None);
    assert_eq!(cache.take(&key(5)), Some((5, 50)));
    assert!(!cache.contains(&key(5)));
    cache.put(key(6), (6, 60));
    cache.clear();
    assert!(!cache.contains(&key(6)));
}

#[test]
fn preview_prefetch_orders_current_then_neighbors() {
    assert_eq!(neighbor_indices(3, 10), vec![2, 4, 1, 5]);
    assert_eq!(neighbor_indices(0, 3), vec![1, 2]);
}

#[test]
fn eager_prefetches_small_folders_or_budget_sized_sets() {
    let small = (0..5).map(|index| sized(index, 10)).collect::<Vec<_>>();
    let many_small = (0..20).map(|index| sized(index, 10)).collect::<Vec<_>>();
    let many_large = (0..20).map(|index| sized(index, 1024 * 1024)).collect::<Vec<_>>();

    assert!(should_eager_prefetch_previews(&small, 1));
    assert!(should_eager_prefetch_previews(&many_small, 1024));
    assert!(!should_eager_prefetch_previews(&many_large, 1024));
}

#[test]
fn small_folders_are_rendered_ahead_once() {
    let mut state = state((0..4).map(|index| sized(index, 10)).collect());
    let mut service = ThumbnailService::new(1);
    service.configure_renderer("native".to_owned());
    let jobs = prefetch_after_current(&mut state, 80, 24, &mut service, 16);
    assert_eq!(jobs.len(), 3);
    assert_eq!(service.preview_inflight_len(), 3);
    assert!(prefetch_after_current(&mut state, 80, 24, &mut service, 16).is_empty());
    assert_eq!(preview_label("a.jpg", ZoomMode::OriginalPixels), " a.jpg | original ");
}

// The screen.

#[test]
fn page_size_calculation_never_returns_zero() {
    let layout = compute_grid_layout(Rect::new(0, 0, 1, 1));

    assert_eq!(layout.page_size, 1);
}

#[test]
fn expected_grid_page_size() {
    let layout = compute_grid_layout(Rect::new(0, 0, 80, 24));

    assert_eq!(layout.cols, 4);
    assert_eq!(layout.rows, 2);
    assert_eq!(layout.page_size, 8);
}

#[test]
fn grids_turn_to_the_current_entry() {
    let mut state = state((0..20).map(|index| sized(index, 1)).collect());
    state.current_index = 9;
    let layout = compute_grid_layout(Rect::new(0, 0, 80, 24));
    let shown = turn_to_current(&mut state, &layout, &(0..20).collect());
    assert_eq!(shown, (8..16).collect::<Vec<_>>());
    assert_eq!(state.grid_page, 1);
    let first = cell_rect(Rect::new(0, 0, 80, 24), 0);
    assert_eq!((first.x, first.y), (0, 0));
    assert_eq!(truncate("abcdef", 4), "abc~");
    assert_eq!(truncate("abc", 4), "abc");
    assert!(cell_title("a.jpg", true, 20).contains("a.jpg"));
}

#[test]
fn areas_are_centered() {
    let area = Rect::new(10, 20, 80, 24);
    assert_eq!(center(area, 40, 4), Rect::new(30, 30, 40, 4));
    assert_eq!(confirm_rect(area), Rect::new(23, 28, 54, 7));
    assert_eq!(floating_rect(area, 50, 50), Rect::new(30, 26, 40, 12));
    assert_eq!(
        centered_rect(area, Size { width: 100, height: 2 }),
        Rect::new(10, 31, 80, 2)
    );
    assert_eq!(
        split_screen(area, false),
        (Rect::new(10, 20, 80, 23), Some(Rect::new(10, 43, 80, 1)))
    );
    assert_eq!(split_screen(area, true), (area, None));
}

#[test]
fn texts_of_the_screen_tell_the_state() {
    let mut state = state(vec![entry()]);
    state.mode = ViewMode::Grid;
    state.status_message = Some("ready".to_owned());
    assert_eq!(
        status_line(&state, "native:Kitty"),
        " grid | 1 / 1 | queued: 0 | sort: Discovered | native:Kitty | ready"
    );
    assert_eq!(confirm_question(3), "Permanently delete 3 files?");
    let date = entry_date_text(&state.entries[0]);
    assert_eq!(date, Some("1970-01-01T00:00:01Z".to_owned()));
    let lines = info_lines(&state.entries[0], &state, "0.0", date, "/media/a.jpg");
    assert_eq!(
        lines,
        vec![
            "filename: a.jpg",
            "dimensions: unknown",
            "type: JPEG",
            "file size: 10 bytes",
            "date: 1970-01-01T00:00:01Z",
            "path: /media/a.jpg",
            "delete queued: no",
            "index: 1 / 1",
        ]
    );
}

#[test]
fn renderers_need_graphics_or_leave_to_use_symbols() {
    let capabilities =
        preflight(BackendChoice::Kitty, Some(ProtocolType::Halfblocks), false).unwrap();
    assert_eq!(capabilities.backend_id, "native:Kitty");
    assert!(capabilities.graphics_protocol);
    assert_eq!(
        preflight(BackendChoice::Auto, Some(ProtocolType::Halfblocks), false),
        Err(PreflightError::OnlyHalfblocks)
    );
    assert_eq!(
        preflight(BackendChoice::Auto, None, false),
        Err(PreflightError::NothingDetected)
    );
    assert!(!preflight(BackendChoice::Auto, None, true).unwrap().graphics_protocol);
    assert!(renderer_usable(false, false, BackendChoice::Chafa));
    assert!(!renderer_usable(false, false, BackendChoice::Auto));
    assert!(!backend_label(BackendChoice::Auto).is_empty());
}

// Refreshes.

#[test]
fn refresh_reconciliation_stops_cooperatively_when_cancelled() {
    let old = vec![media_entry("old.jpg", 0)];
    let fresh = vec![media_entry("new.jpg", 0)];
    let checks = Cell::new(0);
    let cancelled = || {
        let next = checks.get() + 1;
        checks.set(next);
        next >= 3
    };

    let result =
        prepare_media_refresh_cancellable(old, fresh, SortMode::Discovered, None, &cancelled);

    assert!(result.is_none());
    assert!(checks.get() >= 3);
}

fn output(entries: Vec<MediaEntry>) -> MediaRefreshOutput {
    MediaRefreshOutput {
        entries,
        unchanged_paths: KeySet::new(),
        invalidated_paths: KeySet::new(),
        added: 0,
        removed: 0,
        updated: 0,
    }
}

fn scope() -> MediaRefreshScope {
    MediaRefreshScope::SelectedFiles { files: Vec::new(), extensions: Vec::new() }
}

#[test]
fn latest_media_result_replaces_older_undrained_result() {
    let mut service = RefreshService::new();
    for generation in [1, 2] {
        service.publish_result(RefreshResult::Media {
            generation,
            scope: scope(),
            sort_mode: SortMode::Discovered,
            result: Ok(output(Vec::new())),
        });
    }

    let results = service.drain();
    assert_eq!(results.len(), 1);
    assert!(matches!(results[0], RefreshResult::Media { generation: 2, .. }));
    assert!(service.drain().is_empty());
}

#[test]
fn worker_scans_media_without_blocking_the_caller() {
    let mut service = RefreshService::new();
    let scope = MediaRefreshScope::Directory(ScanOptions {
        root: path("/media"),
        recursive: false,
        include_hidden: false,
        extensions: vec!["jpg".to_owned()],
    });
    service.request_media(7, scope.clone(), Vec::new(), SortMode::Discovered, None);
    assert!(service.drain().is_empty());

    let request = service.take_requests().media.unwrap();
    assert!(!service.media_cancelled(request.epoch));
    let found = prepare_media_refresh(
        request.previous_entries,
        vec![media_entry("image.jpg", 0)],
        request.sort_mode,
        None,
    );
    assert!(service.conclude_media(
        request.generation,
        request.epoch,
        request.scope,
        request.sort_mode,
        Ok(Some(found)),
    ));

    match service.drain().pop().unwrap() {
        RefreshResult::Media { generation, scope: returned_scope, result, .. } => {
            assert_eq!(generation, 7);
            assert_eq!(returned_scope, scope);
            assert_eq!(result.unwrap().entries.len(), 1);
        }
        RefreshResult::Browser { .. } => panic!("expected media refresh"),
    }
}

#[test]
fn suspended_worker_drops_refresh_without_publishing_a_result() {
    let mut service = RefreshService::new();
    service.set_suspended(true);
    service.request_media(1, scope(), Vec::new(), SortMode::Discovered, None);
    if let Some(request) = service.take_requests().media {
        assert!(service.media_cancelled(request.epoch));
        assert!(!service.conclude_media(
            request.generation,
            request.epoch,
            request.scope,
            request.sort_mode,
            Ok(Some(output(Vec::new()))),
        ));
    }

    assert!(service.drain().is_empty());
}

#[test]
fn a_newer_request_silences_the_older_one() {
    let mut service = RefreshService::new();
    service.request_media(1, scope(), Vec::new(), SortMode::Discovered, None);
    let old = service.take_requests().media.unwrap();
    service.request_media(2, scope(), Vec::new(), SortMode::Discovered, None);
    assert!(service.media_cancelled(old.epoch));
    assert!(!service.conclude_media(
        old.generation,
        old.epoch,
        old.scope,
        old.sort_mode,
        Ok(Some(output(Vec::new()))),
    ));
    assert!(service.drain().is_empty());

    let browser = BrowserRefreshScope {
        directory: path("/media"),
        include_hidden: false,
        extensions: Vec::new(),
        sort_mode: SortMode::NameAsc,
    };
    service.request_browser(3, browser.clone());
    let request = service.take_requests().browser.unwrap();
    service.cancel_all();
    assert!(service.browser_cancelled(request.epoch));
    assert!(!service.conclude_browser(3, request.epoch, browser, Err("gone".to_owned())));
}

#[test]
fn reconciliation_preserves_enrichment_and_order_for_unchanged_entries() {
    let mut old = media_entry("existing.jpg", 7);
    old.file_len = 12;
    old.dimensions = Some((1920, 1080));
    old.dimensions_attempted = true;
    let mut fresh = old.clone();
    fresh.discovered_order = 0;
    fresh.dimensions = None;
    fresh.dimensions_attempted = false;
    let added = media_entry("new.jpg", 0);

    let result = prepare_media_refresh(vec![old], vec![fresh, added], SortMode::Discovered, None);

    assert_eq!(result.added, 1);
    assert_eq!(result.updated, 0);
    assert_eq!(result.entries[0].discovered_order, 7);
    assert_eq!(result.entries[0].dimensions, Some((1920, 1080)));
    assert_eq!(result.entries[1].discovered_order, 8);
}

#[test]
fn refreshes_unmark_what_changed_or_disappeared() {
    let old = vec![sized(0, 1), sized(1, 1), sized(2, 1)];
    let mut state = state(old.clone());
    for index in 0..3 {
        state.current_index = index;
        state.toggle_queue_current();
    }
    state.current_index = 1;
    let refreshed =
        prepare_media_refresh(old, vec![sized(1, 1), sized(2, 9)], SortMode::Discovered, None);
    assert!(refreshed.changed());
    assert_eq!((refreshed.removed, refreshed.updated), (1, 1));
    assert!(refreshed.invalidated_paths.contains(&path("0.jpg")));
    assert!(refreshed.invalidated_paths.contains(&path("2.jpg")));
    assert!(refreshed.unchanged_paths.contains(&path("1.jpg")));

    state.take_refresh(refreshed);

    assert_eq!(state.delete_queue.to_paths(), vec![path("1.jpg")]);
    assert_eq!(state.current_path(), Some(path("1.jpg")));
}

#[test]
fn the_same_scan_changes_nothing() {
    let old = vec![sized(0, 1), sized(1, 1)];
    let same = prepare_media_refresh(old.clone(), old, SortMode::Discovered, None);
    assert!(!same.changed());
    assert!(same.invalidated_paths.is_empty());
}

// Notifications.

#[test]
fn duplicate_paths_prefer_recursive_watch() {
    let root = path("/tmp/media");
    let paths = normalized_paths(&vec![
        WatchPath::new(root.clone(), false),
        WatchPath::new(root.clone(), true),
    ]);

    assert_eq!(paths, vec![WatchPath::new(root, true)]);
}

#[test]
fn path_membership_accepts_root_and_descendants() {
    let root = path("/tmp/media");
    assert!(path_is_within(&root, &root));
    assert!(path_is_within(&path("/tmp/media/nested/file.jpg"), &root));
    assert!(!path_is_within(&path("/tmp/elsewhere/file.jpg"), &root));
}

#[test]
fn event_disposition_waits_for_close_write_when_available() {
    assert_eq!(
        event_disposition(&EventKind::Access(AccessKind::Open(AccessMode::Read)), true),
        EventDisposition::Ignore
    );
    assert_eq!(
        event_disposition(&EventKind::Create(CreateKind::File), true),
        EventDisposition::Dirty(SettleRequirement::CloseWrite)
    );
    assert_eq!(
        event_disposition(&EventKind::Create(CreateKind::File), false),
        EventDisposition::Dirty(SettleRequirement::StableMetadata)
    );
    assert_eq!(
        event_disposition(&EventKind::Access(AccessKind::Close(AccessMode::Write)), true),
        EventDisposition::Ready
    );
    assert_eq!(
        event_disposition(&EventKind::Remove(RemoveKind::File), true),
        EventDisposition::Ready
    );
}

fn event(kind: EventKind, file: &str) -> Result<WatchEvent, String> {
    Ok(WatchEvent { kind, paths: vec![path(file)], need_rescan: false })
}

#[test]
fn native_watcher_does_not_publish_a_file_while_its_writer_is_open() {
    let mut raw = RawMessages::new();
    assert!(raw.send_raw_result(event(EventKind::Create(CreateKind::File), "slow.jpg"), true));
    let mut debouncer = Debouncer::new();
    debouncer.absorb(&raw);
    let mut ready: KeySet<MediaPath> = KeySet::new();
    let stamp = Some(FileStamp { len: 19, modified: Some(1) });
    for _ in 0..3 {
        debouncer.settle(&vec![stamp], &mut ready);
        assert!(ready.is_empty());
    }

    let mut closed = RawMessages::new();
    closed.send_raw_result(
        event(EventKind::Access(AccessKind::Close(AccessMode::Write)), "slow.jpg"),
        true,
    );
    debouncer.absorb(&closed);
    assert!(debouncer.is_idle());
    assert!(closed.ready.contains(&path("slow.jpg")));
}

#[test]
fn watcher_reports_created_modified_and_removed_files() {
    let mut raw = RawMessages::new();
    raw.send_raw_result(event(EventKind::Create(CreateKind::File), "live.jpg"), false);
    let mut debouncer = Debouncer::new();
    debouncer.absorb(&raw);
    let mut ready: KeySet<MediaPath> = KeySet::new();
    debouncer.settle(&vec![Some(FileStamp { len: 5, modified: Some(1) })], &mut ready);
    assert!(ready.is_empty());
    debouncer.settle(&vec![Some(FileStamp { len: 15, modified: Some(2) })], &mut ready);
    assert!(ready.is_empty());
    debouncer.settle(&vec![Some(FileStamp { len: 15, modified: Some(2) })], &mut ready);
    assert!(ready.contains(&path("live.jpg")));

    let mut pending = PendingMessages::new();
    assert!(pending.extend(&ready, false, &Vec::new()));
    assert_eq!(
        pending.take_pending(),
        vec![WatchMessage::Changed(vec![path("live.jpg")])]
    );
    assert!(pending.take_pending().is_empty());

    let mut modified = RawMessages::new();
    modified.send_raw_result(event(EventKind::Modify(ModifyKind::Data), "live.jpg"), false);
    debouncer.absorb(&modified);
    let mut ready: KeySet<MediaPath> = KeySet::new();
    let changed = Some(FileStamp { len: 20, modified: Some(3) });
    debouncer.settle(&vec![changed], &mut ready);
    assert!(ready.is_empty());
    debouncer.settle(&vec![changed], &mut ready);
    assert!(pending.extend(&ready, false, &Vec::new()));
    assert_eq!(
        pending.take_pending(),
        vec![WatchMessage::Changed(vec![path("live.jpg")])]
    );

    let mut removed = RawMessages::new();
    removed.send_raw_result(event(EventKind::Remove(RemoveKind::File), "live.jpg"), false);
    debouncer.absorb(&removed);
    assert!(debouncer.is_idle());
    assert!(pending.extend(&removed.ready, false, &Vec::new()));
    assert_eq!(
        pending.take_pending(),
        vec![WatchMessage::Changed(vec![path("live.jpg")])]
    );
}

#[test]
fn lost_notifications_and_errors_are_passed_on() {
    let mut raw = RawMessages::new();
    assert!(raw.send_raw_result(
        Ok(WatchEvent { kind: EventKind::Other, paths: Vec::new(), need_rescan: true }),
        true
    ));
    assert!(raw.force_rescan);
    assert!(raw.send_raw_result(Err("full".to_owned()), true));
    let mut pending = PendingMessages::new();
    pending.extend(&raw.ready, raw.force_rescan, &raw.errors);
    let messages = pending.take_pending();
    assert!(messages.contains(&WatchMessage::Rescan));
    assert!(messages.contains(&WatchMessage::Error("full".to_owned())));
    assert!(!raw.send_raw_result(
        event(EventKind::Access(AccessKind::Read), "a.jpg"),
        true
    ));
}

#[test]
fn watches_are_replaced_by_their_difference() {
    let old = vec![WatchPath::new(path("/a"), false), WatchPath::new(path("/b"), true)];
    let new = vec![WatchPath::new(path("/b"), true), WatchPath::new(path("/c"), false)];
    assert_eq!(watch_difference(&old, &new), vec![WatchPath::new(path("/a"), false)]);
    assert_eq!(watch_difference(&new, &old), vec![WatchPath::new(path("/c"), false)]);
}

#[test]
fn areas_without_room_have_one_cell() {
    let area = Rect::new(3, 4, 0, 0);
    assert_eq!(compute_grid_layout(area).page_size, 1);
    assert_eq!(cell_rect(area, 0), Rect::new(3, 4, 0, 0));
    let mut state = state((0..20).map(|index| sized(index, 1)).collect());
    state.current_index = 9;
    let layout = compute_grid_layout(Rect::new(0, 0, 80, 24));
    let twice = (0..20).chain(0..20).collect::<Vec<usize>>();
    assert_eq!(turn_to_current(&mut state, &layout, &twice), (8..16).collect::<Vec<_>>());
}

#[test]
fn cancelled_refreshes_give_nothing() {
    let entries = || vec![media_entry("image.jpg", 0)];
    let cancelled = prepare_media_refresh_cancellable(
        entries(),
        entries(),
        SortMode::Discovered,
        None,
        &|| true,
    );
    assert!(cancelled.is_none());
    assert!(reconcile_media_cancellable(&entries(), entries(), &|| true).is_none());
    let done = reconcile_media_cancellable(&Vec::new(), entries(), &|| false);
    assert_eq!(done.unwrap().entries.len(), 1);
}

#[test]
fn files_are_removed_only_where_that_is_due() {
    let state = state(vec![media_entry("image.jpg", 0)]);
    let file = state.entries[0].path.clone();
    let probe = |len: u64| FileProbe {
        canonical: Ok(path("/media/image.jpg")),
        metadata: Ok(FileFacts { is_symlink: false, is_file: true, len, modified: None }),
    };
    let len = state.entries[0].file_len;
    assert!(removal_due(&state, &file, &probe(len), false));
    assert!(!removal_due(&state, &file, &probe(len), true));
    assert!(!removal_due(&state, &file, &probe(len + 1), false));
    assert!(!removal_due(&state, &path("other.jpg"), &probe(len), false));
}

#[test]
fn caches_reserve_no_room() {
    let mut cache = SlotCache::new(usize::MAX);
    assert_eq!(cache.capacity(), usize::MAX);
    let slot = |file: &str| (path(file).names, "kitty".to_owned(), vec![1u128]);
    assert!(cache.push(slot("a.jpg"), (1, 10)).is_none());
    assert!(cache.push(slot("b.jpg"), (2, 20)).is_none());
    assert!(cache.push(slot("c.jpg"), (3, 30)).is_none());
    assert_eq!((cache.len(), cache.bytes()), (3, 60));
    assert_eq!(cache.get(&slot("a.jpg")), Some((1, 10)));
    assert_eq!(cache.trim(45), vec![2]);
    assert_eq!(cache.trim(0), vec![3]);
    assert_eq!(cache.len(), 1);
    assert_eq!(ProtocolCache::new(usize::MAX, 1).get(&slot("a.jpg")), None);
}

#[test]
fn jobs_ahead_carry_the_orientation_of_their_entries() {
    let mut entries: Vec<MediaEntry> = (0..3).map(|index| sized(index, 1)).collect();
    entries[1].exif_orientation = Some(6);
    let mut state = state(entries);
    let mut service = ThumbnailService::new(1);
    service.configure_renderer("native".to_owned());
    let jobs = prefetch_after_current(&mut state, 80, 24, &mut service, 16);
    let known = jobs
        .iter()
        .map(|job| (job.key.path.clone(), job.orientation))
        .collect::<Vec<_>>();
    assert_eq!(known.len(), 2);
    assert!(known.contains(&(state.entries[1].path.clone(), Some(6))));
    assert!(known.contains(&(state.entries[2].path.clone(), None)));
}

#[test]
fn listed_directories_are_watched() {
    let directory = MediaRefreshScope::Directory(ScanOptions {
        root: path("/media"),
        recursive: true,
        include_hidden: false,
        extensions: vec!["jpg".to_owned()],
    });
    assert_eq!(watch_paths(&directory, None), vec![WatchPath::new(path("/media"), true)]);
    assert_eq!(
        watch_paths(&directory, Some(&path("/other"))),
        vec![WatchPath::new(path("/media"), true), WatchPath::new(path("/other"), false)]
    );
    let selected = MediaRefreshScope::SelectedFiles {
        files: vec![path("/a/1.jpg"), path("/"), path("/b/2.jpg")],
        extensions: vec!["jpg".to_owned()],
    };
    assert_eq!(
        watch_paths(&selected, Some(&path("/a"))),
        vec![
            WatchPath::new(path("/a"), false),
            WatchPath::new(path("/b"), false),
            WatchPath::new(path("/a"), false),
        ]
    );
}
