# cullr

`cullr` is a desktop media viewer and culling tool: it shows a folder of images and
videos, lets the user mark rejects, and deletes the marked files only after an explicit
confirmation.

This crate holds its rules as a library verified with [Verus](https://github.com/verus-lang/verus),
and the program around it.

## Layout

- `src/` is the library. Every function states in its contract what it does, and Verus
  proves it. What an outside crate does is stated where it is called, in small functions
  marked `external_body`; those contracts are read, not proved.
- `app/` is the program: the command line, the file system, decoding and playback
  threads, the window and the terminal. It holds no rules of its own.
- `tests/` runs the library on examples.

| Module | What it is about |
| --- | --- |
| `state`, `queue`, `path` | the session: its entries, its selection, the marked files |
| `scanner`, `browser`, `sorter`, `metadata` | what is listed, and in which order |
| `decode`, `codec`, `picture`, `video` | pictures and frames: sizes, limits, orientation, timing |
| `delete` | which marked files may be deleted |
| `refresh`, `watcher` | keeping the list up to date while files change |
| `gui` | the window: keys, videos, textures, launches, refreshes, the file browser |
| `app`, `input`, `ui`, `renderer`, `thumbnail`, `image_cache`, `slots` | the viewer in a terminal |
| `assoc`, `order`, `comparison`, `numbers`, `binary`, `text` | sets and maps, sorting, arithmetic, text |

## Laws

Beside the contracts of single functions the library proves what holds across them, as
public proof functions whose names begin with `law_`. Among them:

- Files are deleted only where the question was asked and answered with `y`, and it is
  asked only while files are marked (`gui::laws::law_deletion_is_confirmed`).
- A deleted file was marked, lies in the scope of the session, is a regular file and did
  not change since it was scanned (`delete::law_deleted_files_are_safe`).
- A scan takes every mark off and forgets what was decoded; what a decoding begun before
  it brings is refused (`gui::laws::law_scan_starts_afresh`).
- A refresh forgets what is known of files that changed, and nothing else
  (`gui::live::law_refresh_keeps_unchanged_textures`).
- While refreshes wait none is asked for, and once they go on one covers all changes
  (`gui::schedule::law_one_request_covers_all_changes`).
- The kept textures stay within a number of bytes, or there is one alone
  (`gui::work::law_textures_stay_within_their_bytes`).
- Where file names are Unicode text, the descending order by name is the ascending one,
  reversed, as far as no two files were discovered at one time
  (`sorter::law_descending_reverses_ascending`).
- A scan lists no path twice where the walk found none twice, and a flat one lists what the recursive one lists right
  below the root (`scanner::law_flat_scan_is_part_of_recursive`).
- Keys keep the selection in the list, the marks on listed files and the active video on
  the current entry (`gui::laws::law_keys_keep_window_sound`).
- Losing the focus pauses a video, and getting it resumes none
  (`gui::laws::law_focus_pauses_and_never_resumes`).

## Numbers

Sizes and times are whole numbers: pixels, bytes, and nanoseconds. Where one is scaled,
that is done with numbers of 53 bits, rounded step by step as IEEE 754 has it for its
format binary64 (`binary`).
