//! The file browser pane: the listing of a directory, the kinds of its entries,
//! and the selection.

use vstd::prelude::*;
use vstd::string::StringExecFns;

use crate::assoc::{map_get, map_with, Key, KeyMap};
use crate::comparison::{
    compare_i128, compare_text, compare_usize, law_text_order, number_order, text_order,
    Comparison,
};
use crate::numbers::{clamped, least, min_usize, step_within};
use crate::order::{arranged, sort_items, stable_sort, total_order, Ranking};
use crate::path::{parent_of, path_of, MediaPath, PathNames};
use crate::refresh::{certain, never, possible};
use crate::scanner::{
    found_of, hidden_name, is_hidden_name, lower_extension, lowercase_extension, probe_kind,
    probed_kind, FoundFile, FoundView,
};
use crate::state::{AppState, MediaKind, SortMode, StateView, ViewMode};
use crate::text::{chars_of, has_text, lowercase, text_between, texts_of, to_lowercase};

verus! {

/// What an entry of the browser is.
#[derive(Debug, Clone, Copy, PartialEq, Eq, Structural)]
pub enum BrowserEntryKind {
    Directory,
    Media(MediaKind),
    UnsupportedFile,
}

/// An entry of the browser.
#[derive(Debug, PartialEq, Eq)]
pub struct BrowserEntry {
    pub path: MediaPath,
    pub display_name: String,
    pub kind: BrowserEntryKind,
}

impl Clone for BrowserEntry {
    fn clone(&self) -> (copy: Self)
        ensures
            copy@ == self@,
    {
        BrowserEntry {
            path: self.path.clone(),
            display_name: self.display_name.as_str().to_owned(),
            kind: self.kind,
        }
    }
}

/// The contents of a [`BrowserEntry`].
pub struct BrowserEntryView {
    pub path: PathNames,
    pub display_name: Seq<char>,
    pub kind: BrowserEntryKind,
}

impl View for BrowserEntry {
    type V = BrowserEntryView;

    open spec fn view(&self) -> BrowserEntryView {
        BrowserEntryView {
            path: self.path@,
            display_name: self.display_name@,
            kind: self.kind,
        }
    }
}

/// The contents of a list of browser entries.
pub open spec fn listing_of(entries: Seq<BrowserEntry>) -> Seq<BrowserEntryView> {
    Seq::new(entries.len(), |i: int| entries[i]@)
}

/// Which pane the keys go to.
#[derive(Debug, Clone, Copy, PartialEq, Eq, Structural)]
pub enum BrowserPaneFocus {
    Browser,
    Media,
}

/// The state of the browser pane.
#[derive(Debug)]
pub struct BrowserState {
    pub listed_directory: MediaPath,
    pub entries: Vec<BrowserEntry>,
    pub selected_index: usize,
    pub focus: BrowserPaneFocus,
    /// The path that was last selected in each directory.
    pub remembered_selection: KeyMap<MediaPath, MediaPath>,
    pub scroll_to_selection: bool,
}

/// The contents of a [`BrowserState`].
pub struct BrowserView {
    pub listed_directory: PathNames,
    pub entries: Seq<BrowserEntryView>,
    pub selected_index: usize,
    pub focus: BrowserPaneFocus,
    pub remembered_selection: Seq<(PathNames, PathNames)>,
    pub scroll_to_selection: bool,
}

impl View for BrowserState {
    type V = BrowserView;

    open spec fn view(&self) -> BrowserView {
        BrowserView {
            listed_directory: self.listed_directory@,
            entries: listing_of(self.entries@),
            selected_index: self.selected_index,
            focus: self.focus,
            remembered_selection: self.remembered_selection@,
            scroll_to_selection: self.scroll_to_selection,
        }
    }
}

/// What a regular file is for the browser.
pub open spec fn file_kind(
    path: PathNames,
    head: Seq<u8>,
    extensions: Seq<Seq<char>>,
) -> BrowserEntryKind {
    match lower_extension(path) {
        Some(extension) => if extensions.contains(extension) {
            match probed_kind(extension, head) {
                Some(kind) => BrowserEntryKind::Media(kind),
                None => BrowserEntryKind::UnsupportedFile,
            }
        } else {
            BrowserEntryKind::UnsupportedFile
        },
        None => BrowserEntryKind::UnsupportedFile,
    }
}

/// What a found file is for the browser; symbolic links and special files are not
/// listed.
pub open spec fn listed_kind(found: FoundView, extensions: Seq<Seq<char>>) -> Option<
    BrowserEntryKind,
> {
    match found.metadata {
        Some(metadata) => if metadata.is_symlink {
            None
        } else if metadata.is_dir {
            Some(BrowserEntryKind::Directory)
        } else if metadata.is_file {
            Some(file_kind(found.path, found.head, extensions))
        } else {
            None
        },
        None => None,
    }
}

/// The entries of the first `count` found files, in the order in which they were
/// found.
pub open spec fn listed(
    found: Seq<FoundView>,
    include_hidden: bool,
    extensions: Seq<Seq<char>>,
    count: nat,
) -> Seq<BrowserEntryView>
    decreases count,
{
    if count == 0 {
        Seq::empty()
    } else {
        let front = listed(found, include_hidden, extensions, (count - 1) as nat);
        let file = found[count - 1];
        match listed_kind(file, extensions) {
            Some(kind) => if include_hidden || !hidden_name(file.name) {
                front.push(
                    BrowserEntryView { path: file.path, display_name: file.name.lossy, kind },
                )
            } else {
                front
            },
            None => front,
        }
    }
}

/// The place of a kind of entry: folders, media, other files.
pub open spec fn kind_rank(kind: BrowserEntryKind) -> int {
    match kind {
        BrowserEntryKind::Directory => 0,
        BrowserEntryKind::Media(_) => 1,
        BrowserEntryKind::UnsupportedFile => 2,
    }
}

/// How one entry stands to another: by kind, by name without regard to ASCII
/// case, and by name.
pub open spec fn browser_order(a: BrowserEntryView, b: BrowserEntryView) -> Comparison {
    number_order(kind_rank(a.kind), kind_rank(b.kind)).refined(
        text_order(lowercase(a.display_name), lowercase(b.display_name)),
    ).refined(text_order(a.display_name, b.display_name))
}

/// The order of the browser, as a relation.
pub open spec fn browser_before() -> spec_fn(BrowserEntryView, BrowserEntryView) -> bool {
    |a: BrowserEntryView, b: BrowserEntryView| browser_order(a, b) != Comparison::Greater
}

/// The order of the browser relates any two entries, and chains; so a listing has
/// one sorted form.
pub proof fn law_browser_order_is_total()
    ensures
        total_order(browser_before()),
{
    let before = browser_before();
    assert forall|a: BrowserEntryView, b: BrowserEntryView| #[trigger]
        before(a, b) || before(b, a) by {
        law_text_order(a.display_name, b.display_name, a.display_name);
        law_text_order(
            lowercase(a.display_name),
            lowercase(b.display_name),
            lowercase(a.display_name),
        );
    }
    assert forall|a: BrowserEntryView, b: BrowserEntryView, c: BrowserEntryView|
        #[trigger] before(a, b) && #[trigger] before(b, c) implies before(a, c) by {
        let (la, lb, lc) = (
            lowercase(a.display_name),
            lowercase(b.display_name),
            lowercase(c.display_name),
        );
        law_text_order(a.display_name, b.display_name, c.display_name);
        law_text_order(la, lb, lc);
        law_text_order(lb, lc, la);
        law_text_order(lc, la, lb);
        law_text_order(la, lc, lb);
    }
}

struct BrowserRanking {}

impl Ranking<BrowserEntry> for BrowserRanking {
    closed spec fn before(&self, a: BrowserEntry, b: BrowserEntry) -> bool {
        browser_order(a@, b@) != Comparison::Greater
    }

    fn is_before(&self, a: &BrowserEntry, b: &BrowserEntry) -> (yes: bool) {
        let rank = compare_usize(browser_kind_rank(&a.kind), browser_kind_rank(&b.kind));
        let lower = compare_text(
            to_lowercase(a.display_name.as_str()).as_str(),
            to_lowercase(b.display_name.as_str()).as_str(),
        );
        let name = compare_text(a.display_name.as_str(), b.display_name.as_str());
        match rank.refine(lower).refine(name) {
            Comparison::Greater => false,
            _ => true,
        }
    }
}

fn browser_kind_rank(kind: &BrowserEntryKind) -> (rank: usize)
    ensures
        rank == kind_rank(*kind),
{
    match kind {
        BrowserEntryKind::Directory => 0,
        BrowserEntryKind::Media(_) => 1,
        BrowserEntryKind::UnsupportedFile => 2,
    }
}

/// What a regular file is for the browser.
fn browser_file_kind(path: &MediaPath, head: &Vec<u8>, extensions: &Vec<String>) -> (kind:
    BrowserEntryKind)
    ensures
        kind == file_kind(path@, head@, texts_of(extensions@)),
{
    match lowercase_extension(path) {
        Some(extension) => {
            if !has_text(extensions, extension.as_str()) {
                return BrowserEntryKind::UnsupportedFile;
            }
            match probe_kind(extension.as_str(), head) {
                Some(kind) => BrowserEntryKind::Media(kind),
                None => BrowserEntryKind::UnsupportedFile,
            }
        },
        None => BrowserEntryKind::UnsupportedFile,
    }
}

/// What a found file is for the browser, where it is listed.
fn found_browser_kind(file: &FoundFile, extensions: &Vec<String>) -> (kind: Option<
    BrowserEntryKind,
>)
    ensures
        kind == listed_kind(file@, texts_of(extensions@)),
{
    match file.metadata {
        Some(metadata) => if metadata.is_symlink {
            None
        } else if metadata.is_dir {
            Some(BrowserEntryKind::Directory)
        } else if metadata.is_file {
            Some(browser_file_kind(&file.path, &file.head, extensions))
        } else {
            None
        },
        None => None,
    }
}

/// Sorts the entries of a listing.
fn sort_browser_entries(entries: &mut Vec<BrowserEntry>)
    ensures
        stable_sort(
            listing_of(old(entries)@),
            listing_of(final(entries)@),
            browser_before(),
        ),
{
    let ranking = BrowserRanking {  };
    let mut items: Vec<BrowserEntry> = Vec::new();
    core::mem::swap(entries, &mut items);
    let ghost input = items@;
    let mut sorted = sort_items(items, &ranking);
    proof {
        let before = |a: BrowserEntry, b: BrowserEntry| ranking.before(a, b);
        let order = choose|order: Seq<int>| arranged(input, sorted@, before, order);
        assert(arranged(listing_of(input), listing_of(sorted@), browser_before(), order));
    }
    core::mem::swap(entries, &mut sorted);
}

/// The sorted listing of a directory whose files were found by a walk.
pub fn read_browser_entries(
    found: &Vec<FoundFile>,
    include_hidden: bool,
    extensions: &Vec<String>,
) -> (entries: Vec<BrowserEntry>)
    ensures
        stable_sort(
            listed(found_of(found@), include_hidden, texts_of(extensions@), found@.len()),
            listing_of(entries@),
            browser_before(),
        ),
{
    let ghost files = found_of(found@);
    let mut entries: Vec<BrowserEntry> = Vec::new();
    let mut index: usize = 0;
    assert(listing_of(entries@) =~= Seq::empty());
    while index < found.len()
        invariant
            files == found_of(found@),
            index <= files.len(),
            listing_of(entries@) == listed(
                files,
                include_hidden,
                texts_of(extensions@),
                index as nat,
            ),
        decreases files.len() - index,
    {
        let file = &found[index];
        assert(files[index as int] == file@);
        let ghost before = listing_of(entries@);
        match found_browser_kind(file, extensions) {
            Some(kind) => {
                if include_hidden || !is_hidden_name(&file.name) {
                    let entry = BrowserEntry {
                        path: file.path.clone(),
                        display_name: file.name.lossy.clone(),
                        kind,
                    };
                    entries.push(entry);
                    assert(listing_of(entries@) =~= before.push(entry@));
                }
            },
            None => {},
        }
        index += 1;
    }
    sort_browser_entries(&mut entries);
    entries
}

/// An entry of a listing that is to be sorted, with the time by which it may be.
struct TimedEntry {
    entry: BrowserEntry,
    time: Option<i128>,
}

/// An entry of a listing, with the time of its file.
pub struct TimedView {
    pub entry: BrowserEntryView,
    pub time: Option<i128>,
}

impl View for TimedEntry {
    type V = TimedView;

    closed spec fn view(&self) -> TimedView {
        TimedView { entry: self.entry@, time: self.time }
    }
}

/// The contents of a list of entries with times.
spec fn timed_of(entries: Seq<TimedEntry>) -> Seq<TimedView> {
    Seq::new(entries.len(), |i: int| entries[i]@)
}

/// The entries of a list without their times.
pub open spec fn untimed(entries: Seq<TimedView>) -> Seq<BrowserEntryView> {
    Seq::new(entries.len(), |i: int| entries[i].entry)
}

/// The time of a file: when it was created, else when it was modified, where the file
/// system says so.
pub open spec fn found_time(found: FoundView) -> Option<i128> {
    match found.metadata {
        Some(metadata) => if metadata.created is Some {
            metadata.created
        } else {
            metadata.modified
        },
        None => None,
    }
}

/// As [`listed`], with the times of the files.
pub open spec fn listed_with_times(
    found: Seq<FoundView>,
    include_hidden: bool,
    extensions: Seq<Seq<char>>,
    count: nat,
) -> Seq<TimedView>
    decreases count,
{
    if count == 0 {
        Seq::empty()
    } else {
        let front = listed_with_times(found, include_hidden, extensions, (count - 1) as nat);
        let file = found[count - 1];
        match listed_kind(file, extensions) {
            Some(kind) => if include_hidden || !hidden_name(file.name) {
                front.push(
                    TimedView {
                        entry: BrowserEntryView {
                            path: file.path,
                            display_name: file.name.lossy,
                            kind,
                        },
                        time: found_time(file),
                    },
                )
            } else {
                front
            },
            None => front,
        }
    }
}

/// How one name stands to another: without regard to ASCII case, and then with it.
pub open spec fn listed_name_order(a: Seq<char>, b: Seq<char>) -> Comparison {
    text_order(lowercase(a), lowercase(b)).refined(text_order(a, b))
}

/// How one time stands to another; none stands below all others.
pub open spec fn listed_time_order(a: Option<i128>, b: Option<i128>) -> Comparison {
    match (a, b) {
        (Some(left), Some(right)) => number_order(left as int, right as int),
        (Some(_), None) => Comparison::Greater,
        (None, Some(_)) => Comparison::Less,
        (None, None) => Comparison::Equal,
    }
}

/// How one entry stands to another in a sort mode: folders, media and other files stay
/// apart, and among them the mode decides; where it finds no difference, the names do.
pub open spec fn listed_order(a: TimedView, b: TimedView, mode: SortMode) -> Comparison {
    let kinds = number_order(kind_rank(a.entry.kind), kind_rank(b.entry.kind));
    let times = listed_time_order(a.time, b.time);
    let names = listed_name_order(a.entry.display_name, b.entry.display_name);
    kinds.refined(
        match mode {
            SortMode::Newest => times.flipped().refined(names),
            SortMode::Oldest => times.refined(names),
            SortMode::NameDesc => names.flipped(),
            SortMode::NameAsc | SortMode::Discovered => names,
        },
    )
}

/// The order of the browser in a sort mode, as a relation.
pub open spec fn listed_before(mode: SortMode) -> spec_fn(TimedView, TimedView) -> bool {
    |a: TimedView, b: TimedView| listed_order(a, b, mode) != Comparison::Greater
}

/// Whether a listing is the sort of the found files in a mode.
pub open spec fn sorted_listing(
    found: Seq<FoundView>,
    include_hidden: bool,
    extensions: Seq<Seq<char>>,
    mode: SortMode,
    listing: Seq<BrowserEntryView>,
) -> bool {
    exists|sorted: Seq<TimedView>|
        listing == untimed(sorted) && #[trigger] stable_sort(
            listed_with_times(found, include_hidden, extensions, found.len()),
            sorted,
            listed_before(mode),
        )
}

struct ListedRanking {
    mode: SortMode,
}

impl Ranking<TimedEntry> for ListedRanking {
    closed spec fn before(&self, a: TimedEntry, b: TimedEntry) -> bool {
        listed_order(a@, b@, self.mode) != Comparison::Greater
    }

    fn is_before(&self, a: &TimedEntry, b: &TimedEntry) -> (yes: bool) {
        let kinds = compare_usize(
            browser_kind_rank(&a.entry.kind),
            browser_kind_rank(&b.entry.kind),
        );
        let names = compare_text(
            to_lowercase(a.entry.display_name.as_str()).as_str(),
            to_lowercase(b.entry.display_name.as_str()).as_str(),
        ).refine(compare_text(a.entry.display_name.as_str(), b.entry.display_name.as_str()));
        let times = match (a.time, b.time) {
            (Some(left), Some(right)) => compare_i128(left, right),
            (Some(_), None) => Comparison::Greater,
            (None, Some(_)) => Comparison::Less,
            (None, None) => Comparison::Equal,
        };
        let ranked = match self.mode {
            SortMode::Newest => times.flip().refine(names),
            SortMode::Oldest => times.refine(names),
            SortMode::NameDesc => names.flip(),
            SortMode::NameAsc | SortMode::Discovered => names,
        };
        match kinds.refine(ranked) {
            Comparison::Greater => false,
            _ => true,
        }
    }
}

/// The listing of a directory whose files were found by a walk, sorted in a mode;
/// nothing comes of it where that is cancelled.
pub fn read_browser_entries_with_sort_cancellable<F: Fn() -> bool>(
    found: &Vec<FoundFile>,
    include_hidden: bool,
    extensions: &Vec<String>,
    sort_mode: SortMode,
    cancelled: &F,
) -> (entries: Option<Vec<BrowserEntry>>)
    requires
        call_requires(*cancelled, ()),
    ensures
        match entries {
            Some(entries) => sorted_listing(
                found_of(found@),
                include_hidden,
                texts_of(extensions@),
                sort_mode,
                listing_of(entries@),
            ),
            None => possible(*cancelled),
        },
        never(*cancelled) ==> entries is Some,
        certain(*cancelled) ==> entries is None,
{
    let ghost files = found_of(found@);
    let mut timed: Vec<TimedEntry> = Vec::new();
    let mut index: usize = 0;
    assert(timed_of(timed@) =~= Seq::empty());
    while index < found.len()
        invariant
            files == found_of(found@),
            index <= files.len(),
            call_requires(*cancelled, ()),
            timed_of(timed@) == listed_with_times(
                files,
                include_hidden,
                texts_of(extensions@),
                index as nat,
            ),
        decreases files.len() - index,
    {
        if cancelled() {
            return None;
        }
        let file = &found[index];
        assert(files[index as int] == file@);
        let ghost before = timed_of(timed@);
        match found_browser_kind(file, extensions) {
            Some(kind) => {
                if include_hidden || !is_hidden_name(&file.name) {
                    let time = match file.metadata {
                        Some(metadata) => if metadata.created.is_some() {
                            metadata.created
                        } else {
                            metadata.modified
                        },
                        None => None,
                    };
                    let entry = TimedEntry {
                        entry: BrowserEntry {
                            path: file.path.clone(),
                            display_name: file.name.lossy.clone(),
                            kind,
                        },
                        time,
                    };
                    timed.push(entry);
                    assert(timed_of(timed@) =~= before.push(entry@));
                }
            },
            None => {},
        }
        index += 1;
    }
    if cancelled() {
        return None;
    }
    let ghost input = timed@;
    let ranking = ListedRanking { mode: sort_mode };
    let sorted = sort_items(timed, &ranking);
    proof {
        let before = |a: TimedEntry, b: TimedEntry| ranking.before(a, b);
        let order = choose|order: Seq<int>| arranged(input, sorted@, before, order);
        assert(arranged(timed_of(input), timed_of(sorted@), listed_before(sort_mode), order));
    }
    let entries = without_times(sorted);
    assert(stable_sort(
        listed_with_times(files, include_hidden, texts_of(extensions@), files.len()),
        timed_of(sorted@),
        listed_before(sort_mode),
    ));
    Some(entries)
}

fn without_times(timed: Vec<TimedEntry>) -> (entries: Vec<BrowserEntry>)
    ensures
        listing_of(entries@) == untimed(timed_of(timed@)),
{
    let mut entries: Vec<BrowserEntry> = Vec::new();
    let mut index: usize = 0;
    while index < timed.len()
        invariant
            index <= timed@.len(),
            entries@.len() == index,
            forall|i: int| 0 <= i < index ==> (#[trigger] entries@[i])@ == timed@[i].entry@,
        decreases timed@.len() - index,
    {
        entries.push(timed[index].entry.clone());
        index += 1;
    }
    assert(listing_of(entries@) =~= untimed(timed_of(timed@)));
    entries
}

/// Whatever the mode, a listing has folders before media and media before other files;
/// newest first, the times of a kind fall, and oldest first, they rise.
pub proof fn law_sorted_listing_keeps_kinds_apart(
    input: Seq<TimedView>,
    output: Seq<TimedView>,
    mode: SortMode,
    i: int,
    j: int,
)
    requires
        stable_sort(input, output, listed_before(mode)),
        0 <= i < j < output.len(),
    ensures
        kind_rank(output[i].entry.kind) <= kind_rank(output[j].entry.kind),
        kind_rank(output[i].entry.kind) == kind_rank(output[j].entry.kind) ==> {
            &&& mode == SortMode::Newest ==> listed_time_order(output[i].time, output[j].time)
                != Comparison::Less
            &&& mode == SortMode::Oldest ==> listed_time_order(output[i].time, output[j].time)
                != Comparison::Greater
            &&& mode == SortMode::NameDesc ==> listed_name_order(
                output[i].entry.display_name,
                output[j].entry.display_name,
            ) != Comparison::Less
            &&& mode == SortMode::NameAsc ==> listed_name_order(
                output[i].entry.display_name,
                output[j].entry.display_name,
            ) != Comparison::Greater
        },
{
    law_listed_order_is_total(mode);
    let order = choose|order: Seq<int>| arranged(input, output, listed_before(mode), order);
    crate::order::law_sort_orders_every_pair(input, output, listed_before(mode), order, i, j);
}

proof fn lemma_name_order(a: Seq<char>, b: Seq<char>, c: Seq<char>)
    ensures
        listed_name_order(b, a) == listed_name_order(a, b).flipped(),
        listed_name_order(a, b) != Comparison::Greater && listed_name_order(b, c)
            != Comparison::Greater ==> listed_name_order(a, c) != Comparison::Greater,
        listed_name_order(a, b) == Comparison::Equal && listed_name_order(b, c)
            == Comparison::Equal ==> listed_name_order(a, c) == Comparison::Equal,
{
    let (la, lb, lc) = (lowercase(a), lowercase(b), lowercase(c));
    law_text_order(a, b, c);
    law_text_order(la, lb, lc);
    law_text_order(lb, lc, la);
    law_text_order(lc, la, lb);
    law_text_order(la, lc, lb);
}

/// The orders of the browser relate any two entries, and chain; so a listing has one
/// sorted form in each mode.
pub proof fn law_listed_order_is_total(mode: SortMode)
    ensures
        total_order(listed_before(mode)),
{
    let before = listed_before(mode);
    assert forall|a: TimedView, b: TimedView| #[trigger] before(a, b) || before(b, a) by {
        let name = a.entry.display_name;
        lemma_name_order(name, b.entry.display_name, name);
    }
    assert forall|a: TimedView, b: TimedView, c: TimedView| #[trigger]
        before(a, b) && #[trigger] before(b, c) implies before(a, c) by {
        let (x, y, z) = (a.entry.display_name, b.entry.display_name, c.entry.display_name);
        lemma_name_order(x, y, z);
        lemma_name_order(z, y, x);
        lemma_name_order(y, z, x);
        lemma_name_order(x, z, y);
    }
}

/// The directory that is listed for a path: the one that holds it.
pub open spec fn listed_directory(target: PathNames) -> PathNames {
    match parent_of(target) {
        Some(parent) => parent,
        None => target,
    }
}

/// The directory that is listed for a path.
pub fn listed_directory_for_target(target: &MediaPath) -> (directory: MediaPath)
    ensures
        directory@ == listed_directory(target@),
{
    match target.parent() {
        Some(parent) => parent,
        None => target.clone(),
    }
}

/// Whether the first entry with a path is at an index.
pub open spec fn browser_first_at(
    entries: Seq<BrowserEntryView>,
    path: PathNames,
    index: int,
) -> bool {
    &&& 0 <= index < entries.len()
    &&& entries[index].path == path
    &&& forall|i: int| 0 <= i < index ==> (#[trigger] entries[i]).path != path
}

/// Whether an entry of a listing has a path.
pub open spec fn browser_lists(entries: Seq<BrowserEntryView>, path: PathNames) -> bool {
    exists|index: int| browser_first_at(entries, path, index)
}

/// The index of the first entry with a path.
pub open spec fn browser_position(entries: Seq<BrowserEntryView>, path: PathNames) -> int {
    choose|index: int| browser_first_at(entries, path, index)
}

/// The index to select: that of the preferred path where it is listed, else the
/// fallback as far as there are entries.
pub open spec fn preferred_index(
    entries: Seq<BrowserEntryView>,
    preferred: Option<PathNames>,
    fallback: int,
) -> int {
    if entries.len() == 0 {
        0
    } else {
        match preferred {
            Some(path) => if browser_lists(entries, path) {
                browser_position(entries, path)
            } else {
                least(fallback, entries.len() - 1)
            },
            None => least(fallback, entries.len() - 1),
        }
    }
}

/// The index to select in a listing.
pub fn preferred_browser_index(
    entries: &Vec<BrowserEntry>,
    preferred_path: Option<&MediaPath>,
    fallback: usize,
) -> (selected: usize)
    ensures
        selected == preferred_index(
            listing_of(entries@),
            match preferred_path {
                Some(path) => Some(path@),
                None => None,
            },
            fallback as int,
        ),
{
    if entries.len() == 0 {
        return 0;
    }
    let ghost all = listing_of(entries@);
    match preferred_path {
        Some(path) => {
            let mut index: usize = 0;
            while index < entries.len()
                invariant
                    all == listing_of(entries@),
                    index <= all.len(),
                    all.len() > 0,
                    preferred_path == Some(path),
                    forall|i: int| 0 <= i < index ==> (#[trigger] all[i]).path != path@,
                decreases all.len() - index,
            {
                assert(all[index as int].path == entries@[index as int].path@);
                if entries[index].path.same(path) {
                    proof {
                        assert(browser_first_at(all, path@, index as int));
                        let found = browser_position(all, path@);
                        if found < index {
                            assert(all[found].path != path@);
                        }
                        if index < found {
                            assert(all[index as int].path != path@);
                        }
                        assert(browser_lists(all, path@));
                    }
                    return index;
                }
                index += 1;
            }
        },
        None => {},
    }
    min_usize(fallback, entries.len() - 1)
}

/// The index that a step leads to in a listing of `len` entries.
pub fn browser_move_index(current: usize, delta: isize, len: usize) -> (index: usize)
    ensures
        index == if len == 0 {
            0
        } else {
            clamped(current + delta, 0, len - 1)
        },
{
    if len == 0 {
        return 0;
    }
    step_within(current, delta, len)
}

impl BrowserView {
    /// The path of the selected entry.
    pub open spec fn selected(self) -> Option<PathNames> {
        if self.selected_index < self.entries.len() {
            Some(self.entries[self.selected_index as int].path)
        } else {
            None
        }
    }

    /// The browser that remembers the selected path for its directory.
    pub open spec fn remembering(self) -> BrowserView {
        match self.selected() {
            Some(path) => BrowserView {
                remembered_selection: map_with(
                    self.remembered_selection,
                    self.listed_directory,
                    path,
                ),
                ..self
            },
            None => self,
        }
    }

    /// The browser of a directory that was just opened: the preferred path is
    /// selected, else the one that was last selected there, else the first.
    pub open spec fn opened(
        directory: PathNames,
        entries: Seq<BrowserEntryView>,
        preferred: Option<PathNames>,
        remembered: Seq<(PathNames, PathNames)>,
    ) -> BrowserView {
        let wanted = if preferred is Some {
            preferred
        } else {
            map_get(remembered, directory)
        };
        (BrowserView {
            listed_directory: directory,
            entries,
            selected_index: preferred_index(entries, wanted, 0) as usize,
            focus: BrowserPaneFocus::Browser,
            remembered_selection: remembered,
            scroll_to_selection: true,
        }).remembering()
    }
}

/// The path that the browser opens on: the current file in the preview, else the
/// scanned directory.
pub open spec fn browser_target(state: StateView) -> PathNames {
    if state.mode == ViewMode::Preview {
        match state.current_path() {
            Some(path) => path,
            None => state.directory,
        }
    } else {
        state.directory
    }
}

/// The path that the browser opens on.
pub fn browser_target_for(state: &AppState) -> (target: MediaPath)
    ensures
        target@ == browser_target(state@),
{
    if state.mode == ViewMode::Preview {
        match state.current_path() {
            Some(path) => path,
            None => state.directory.clone(),
        }
    } else {
        state.directory.clone()
    }
}

impl BrowserState {
    /// The browser of a directory with a listing.
    pub fn for_directory(
        listed_directory: MediaPath,
        preferred_selection: Option<MediaPath>,
        remembered_selection: KeyMap<MediaPath, MediaPath>,
        entries: Vec<BrowserEntry>,
    ) -> (browser: BrowserState)
        ensures
            browser@ == BrowserView::opened(
                listed_directory@,
                listing_of(entries@),
                path_of(preferred_selection),
                remembered_selection@,
            ),
    {
        let wanted = match &preferred_selection {
            Some(path) => Some(path),
            None => remembered_selection.get(&listed_directory),
        };
        let selected_index: usize = preferred_browser_index(&entries, wanted, 0);
        let mut browser = BrowserState {
            listed_directory,
            entries,
            selected_index,
            focus: BrowserPaneFocus::Browser,
            remembered_selection,
            scroll_to_selection: true,
        };
        browser.remember_current_selection();
        browser
    }

    /// The browser for what the viewer looks at, with the listing of the
    /// directory that holds it.
    pub fn for_current_view(state: &AppState, entries: Vec<BrowserEntry>) -> (browser:
        BrowserState)
        ensures
            browser@ == BrowserView::opened(
                listed_directory(browser_target(state@)),
                listing_of(entries@),
                Some(browser_target(state@)),
                Seq::empty(),
            ),
    {
        let target = browser_target_for(state);
        let directory = listed_directory_for_target(&target);
        BrowserState::for_directory(directory, Some(target), KeyMap::new(), entries)
    }

    /// The path of the selected entry.
    pub fn selected_path(&self) -> (path: Option<MediaPath>)
        ensures
            path_of(path) == self@.selected(),
    {
        if self.selected_index < self.entries.len() {
            Some(self.entries[self.selected_index].path.clone())
        } else {
            None
        }
    }

    /// Remembers the selected path for the listed directory.
    pub fn remember_current_selection(&mut self)
        ensures
            final(self)@ == old(self)@.remembering(),
    {
        match self.selected_path() {
            Some(path) => {
                self.remembered_selection.insert(self.listed_directory.clone(), path);
            },
            None => {},
        }
    }
}

/// A text without its first characters, and an ellipsis in their place.
pub open spec fn elided(text: Seq<char>, dropped: int) -> Seq<char> {
    seq!['…'] + text.skip(dropped)
}

/// Whether a measure was asked about a text, and answered so.
pub open spec fn answered<F: Fn(&str) -> bool>(fits: F, text: Seq<char>, answer: bool) -> bool {
    exists|asked: &str| asked@ == text && #[trigger] call_ensures(fits, (asked,), answer)
}

/// Elides a text from the left so that its tail fits by a measure, keeping the end
/// visible: the text itself where it fits, else the longest tail that the search
/// found to fit, or only the ellipsis.
pub fn left_elided_text<F: Fn(&str) -> bool>(text: &str, fits: &F) -> (result: String)
    requires
        forall|asked: &str| call_requires(*fits, (asked,)),
    ensures
        result@ == text@ && answered(*fits, text@, true) || (answered(*fits, text@, false)
            && exists|dropped: int|
            {
                &&& 0 <= dropped <= text@.len()
                &&& result@ == #[trigger] elided(text@, dropped)
                &&& dropped < text@.len() ==> answered(*fits, elided(text@, dropped), true)
                &&& dropped > 1 ==> answered(*fits, elided(text@, dropped - 1), false)
                &&& dropped == 0 ==> text@.len() == 0
            }),
{
    if fits(text) {
        return text.to_owned();
    }
    let chars = chars_of(text);
    let mut low: usize = 0;
    let mut high: usize = chars.len();
    while high > low && high - low > 1
        invariant
            forall|asked: &str| call_requires(*fits, (asked,)),
            chars@ == text@,
            low <= high <= chars@.len(),
            low == high ==> chars@.len() == 0,
            high < chars@.len() ==> answered(*fits, elided(text@, high as int), true),
            low > 0 ==> answered(*fits, elided(text@, low as int), false),
        decreases high - low,
    {
        let middle: usize = low + (high - low) / 2;
        let candidate = elide(&chars, middle);
        if fits(candidate.as_str()) {
            high = middle;
        } else {
            low = middle;
        }
    }
    elide(&chars, high)
}

fn elide(chars: &Vec<char>, dropped: usize) -> (text: String)
    requires
        dropped <= chars@.len(),
    ensures
        text@ == elided(chars@, dropped as int),
{
    let tail = text_between(chars, dropped, chars.len());
    let mut text = String::new();
    text.push('…');
    text.append(tail.as_str());
    assert(text@ =~= elided(chars@, dropped as int));
    text
}

/// A sorted listing has folders before media and media before other files.
pub proof fn law_folders_come_first(
    input: Seq<BrowserEntryView>,
    output: Seq<BrowserEntryView>,
    i: int,
    j: int,
)
    requires
        stable_sort(input, output, browser_before()),
        0 <= i < j < output.len(),
    ensures
        kind_rank(output[i].kind) <= kind_rank(output[j].kind),
{
    law_browser_order_is_total();
    let order = choose|order: Seq<int>| arranged(input, output, browser_before(), order);
    crate::order::law_sort_orders_every_pair(input, output, browser_before(), order, i, j);
}

/// Opening a directory again selects what was last selected there, where it is still
/// listed and nothing else is preferred.
pub proof fn law_selection_is_remembered(
    directory: PathNames,
    entries: Seq<BrowserEntryView>,
    remembered: Seq<(PathNames, PathNames)>,
    path: PathNames,
)
    requires
        map_get(remembered, directory) == Some(path),
        browser_lists(entries, path),
        entries.len() <= usize::MAX,
    ensures
        BrowserView::opened(directory, entries, None, remembered).selected() == Some(path),
        map_get(
            BrowserView::opened(directory, entries, None, remembered).remembered_selection,
            directory,
        ) == Some(path),
{
    let index = browser_position(entries, path);
    assert(browser_first_at(entries, path, index));
    crate::assoc::law_map_lookup(remembered, directory, path, directory);
}

/// Whether an entry of a listing comes from one of the first `count` found files, and
/// how it may: from a folder or a regular file, no symbolic link, and a hidden one only
/// where hidden files are listed.
pub open spec fn listed_from(
    entry: BrowserEntryView,
    found: Seq<FoundView>,
    include_hidden: bool,
    count: nat,
) -> bool {
    exists|i: int|
        0 <= i < count && (#[trigger] found[i]).path == entry.path && (include_hidden
            || !hidden_name(found[i].name)) && match found[i].metadata {
            Some(metadata) => !metadata.is_symlink && (metadata.is_dir || metadata.is_file)
                && (entry.kind == BrowserEntryKind::Directory <==> metadata.is_dir),
            None => false,
        }
}

/// A listing has no symbolic links, and no hidden files unless they are asked for.
pub proof fn law_listing_has_no_links(
    found: Seq<FoundView>,
    include_hidden: bool,
    extensions: Seq<Seq<char>>,
    count: nat,
    i: int,
)
    requires
        count <= found.len(),
        0 <= i < listed(found, include_hidden, extensions, count).len(),
    ensures
        listed_from(
            listed(found, include_hidden, extensions, count)[i],
            found,
            include_hidden,
            count,
        ),
    decreases count,
{
    let front = listed(found, include_hidden, extensions, (count - 1) as nat);
    let all = listed(found, include_hidden, extensions, count);
    if i < front.len() {
        law_listing_has_no_links(found, include_hidden, extensions, (count - 1) as nat, i);
        assert(all[i] == front[i]);
    } else {
        assert(found[count - 1].path == all[i].path);
    }
}

/// Whether an entry of a listing stands for a found file: it has its path and its name.
pub open spec fn stands_for(entry: BrowserEntryView, file: FoundView) -> bool {
    entry.path == file.path && entry.display_name == file.name.lossy
}

/// Whether an entry of a listing stands for a found file as the kind that the file is: a
/// folder, the media that its extension stands for, or another file.
pub open spec fn listed_as(
    entry: BrowserEntryView,
    file: FoundView,
    extensions: Seq<Seq<char>>,
) -> bool {
    &&& stands_for(entry, file)
    &&& file.metadata matches Some(metadata) && if metadata.is_dir {
        entry.kind == BrowserEntryKind::Directory
    } else {
        match entry.kind {
            BrowserEntryKind::Directory => false,
            BrowserEntryKind::Media(kind) => lower_extension(file.path) matches Some(extension)
                && extensions.contains(extension) && probed_kind(extension, file.head) == Some(
                kind,
            ),
            BrowserEntryKind::UnsupportedFile => lower_extension(file.path) matches Some(extension)
                ==> (!extensions.contains(extension) || probed_kind(extension, file.head) is None),
        }
    }
}

/// Every folder and every regular file that is not hidden, or that hidden files are listed
/// with, is in the listing, as what it is.
pub proof fn law_listing_misses_nothing(
    found: Seq<FoundView>,
    include_hidden: bool,
    extensions: Seq<Seq<char>>,
    count: nat,
    i: int,
)
    requires
        0 <= i < count <= found.len(),
        found[i].metadata matches Some(metadata) && !metadata.is_symlink && (metadata.is_dir
            || metadata.is_file),
        include_hidden || !hidden_name(found[i].name),
    ensures
        exists|k: int|
            0 <= k < listed(found, include_hidden, extensions, count).len() && listed_as(
                #[trigger] listed(found, include_hidden, extensions, count)[k],
                found[i],
                extensions,
            ),
    decreases count,
{
    let front = listed(found, include_hidden, extensions, (count - 1) as nat);
    let all = listed(found, include_hidden, extensions, count);
    if i < count - 1 {
        law_listing_misses_nothing(found, include_hidden, extensions, (count - 1) as nat, i);
        let k = choose|k: int|
            0 <= k < front.len() && listed_as(#[trigger] front[k], found[i], extensions);
        assert(all[k] == front[k]);
    } else {
        assert(listed_as(all[front.len() as int], found[i], extensions));
    }
}

/// The listing that is sorted by time has the same entries, each with the time at which its
/// file was created, or else modified.
pub proof fn law_listed_times_are_those_of_the_files(
    found: Seq<FoundView>,
    include_hidden: bool,
    extensions: Seq<Seq<char>>,
    count: nat,
)
    requires
        count <= found.len(),
    ensures
        untimed(listed_with_times(found, include_hidden, extensions, count)) == listed(
            found,
            include_hidden,
            extensions,
            count,
        ),
        forall|k: int|
            0 <= k < listed_with_times(found, include_hidden, extensions, count).len()
                ==> times_of_file(
                #[trigger] listed_with_times(found, include_hidden, extensions, count)[k],
                found,
                count,
            ),
    decreases count,
{
    if count > 0 {
        let last = (count - 1) as nat;
        law_listed_times_are_those_of_the_files(found, include_hidden, extensions, last);
        let front = listed_with_times(found, include_hidden, extensions, last);
        let all = listed_with_times(found, include_hidden, extensions, count);
        assert(untimed(all) =~= listed(found, include_hidden, extensions, count));
        assert forall|k: int| 0 <= k < all.len() implies times_of_file(
            #[trigger] all[k],
            found,
            count,
        ) by {
            if k < front.len() {
                assert(all[k] == front[k]);
                assert(times_of_file(front[k], found, last));
            } else {
                assert(stands_for(all[k].entry, found[count - 1]));
            }
        }
    } else {
        assert(untimed(listed_with_times(found, include_hidden, extensions, 0)) =~= listed(
            found,
            include_hidden,
            extensions,
            0,
        ));
    }
}

/// Whether an entry has the time of one of the first `count` found files that it stands for.
pub open spec fn times_of_file(timed: TimedView, found: Seq<FoundView>, count: nat) -> bool {
    exists|i: int|
        0 <= i < count && #[trigger] stands_for(timed.entry, found[i]) && match found[i].metadata {
            Some(metadata) => (metadata.created is Some ==> timed.time == metadata.created) && (
            metadata.created is None ==> timed.time == metadata.modified),
            None => false,
        }
}

/// A file without a known time stands after those with one where the newest come first,
/// and before them where the oldest do.
pub proof fn law_unknown_times_are_oldest(a: TimedView, b: TimedView)
    requires
        kind_rank(a.entry.kind) == kind_rank(b.entry.kind),
        a.time matches Some(time) && match b.time {
            Some(other) => time > other,
            None => true,
        },
    ensures
        listed_order(a, b, SortMode::Newest) == Comparison::Less,
        listed_order(b, a, SortMode::Newest) == Comparison::Greater,
        listed_order(a, b, SortMode::Oldest) == Comparison::Greater,
        listed_order(b, a, SortMode::Oldest) == Comparison::Less,
{
}

/// Names are listed without regard to case: of two entries of a kind whose names differ
/// otherwise, the case decides nothing.
pub proof fn law_names_are_listed_without_case(a: TimedView, b: TimedView)
    requires
        kind_rank(a.entry.kind) == kind_rank(b.entry.kind),
        lowercase(a.entry.display_name) != lowercase(b.entry.display_name),
    ensures
        ({
            let by_name = text_order(
                lowercase(a.entry.display_name),
                lowercase(b.entry.display_name),
            );
            &&& by_name != Comparison::Equal
            &&& browser_order(a.entry, b.entry) == by_name
            &&& listed_order(a, b, SortMode::NameAsc) == by_name
            &&& listed_order(b, a, SortMode::NameDesc) == by_name
            &&& a.time == b.time ==> listed_order(a, b, SortMode::Newest) == by_name
            &&& a.time == b.time ==> listed_order(a, b, SortMode::Oldest) == by_name
        }),
{
    let (la, lb) = (lowercase(a.entry.display_name), lowercase(b.entry.display_name));
    law_text_order(la, lb, la);
    law_text_order(a.entry.display_name, b.entry.display_name, a.entry.display_name);
    lemma_name_order(a.entry.display_name, b.entry.display_name, a.entry.display_name);
}

/// A directory opens with the preferred path selected where it is listed, whatever was
/// selected there before; where neither is listed, with the first entry.
pub proof fn law_opening_selects_the_preferred(
    directory: PathNames,
    entries: Seq<BrowserEntryView>,
    preferred: Option<PathNames>,
    remembered: Seq<(PathNames, PathNames)>,
    i: int,
)
    requires
        0 <= i < entries.len() <= usize::MAX,
    ensures
        ({
            let opened = BrowserView::opened(directory, entries, preferred, remembered);
            &&& preferred == Some(entries[i].path) ==> opened.selected() == preferred
            &&& preferred is None && map_get(remembered, directory) is None
                ==> opened.selected_index == 0
            &&& (preferred matches Some(path) && !browser_lists(entries, path))
                ==> opened.selected_index == 0
            &&& opened.listed_directory == directory
            &&& opened.entries == entries
            &&& opened.focus == BrowserPaneFocus::Browser
            &&& opened.scroll_to_selection
            &&& opened.selected() matches Some(path) && map_get(
                opened.remembered_selection,
                directory,
            ) == Some(path)
        }),
{
    lemma_listed_at(entries, i);
    let found = browser_position(entries, entries[i].path);
    assert(browser_first_at(entries, entries[i].path, found));
    let wanted = if preferred is Some {
        preferred
    } else {
        map_get(remembered, directory)
    };
    if let Some(path) = wanted {
        if browser_lists(entries, path) {
            assert(browser_first_at(entries, path, browser_position(entries, path)));
        }
    }
    let opened = BrowserView::opened(directory, entries, preferred, remembered);
    assert(opened.selected_index < entries.len());
    crate::assoc::law_map_lookup(remembered, directory, opened.selected().unwrap(), directory);
}

proof fn lemma_listed_at(entries: Seq<BrowserEntryView>, i: int)
    requires
        0 <= i < entries.len(),
    ensures
        browser_lists(entries, entries[i].path),
    decreases i,
{
    if browser_first_at(entries, entries[i].path, i) {
    } else {
        let j = choose|j: int| 0 <= j < i && (#[trigger] entries[j]).path == entries[i].path;
        lemma_listed_at(entries, j);
    }
}

/// The browser opens on the file of the preview, in the directory that holds it; on the
/// directory of the session from the grid, or without a file.
pub proof fn law_browser_opens_on_what_is_shown(state: StateView, i: int)
    requires
        0 <= i < state.entries.len(),
        state.current_index == i,
    ensures
        state.mode == ViewMode::Preview ==> browser_target(state) == state.entries[i].path,
        state.mode == ViewMode::Grid ==> browser_target(state) == state.directory,
        parent_of(state.directory) is None ==> listed_directory(state.directory)
            == state.directory,
        parent_of(state.directory) matches Some(parent) ==> listed_directory(state.directory)
            == parent,
{
}

} // verus!
