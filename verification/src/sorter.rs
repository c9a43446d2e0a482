//! The orders of the media list.

use icu::collator::options::CollatorOptions;
use icu::collator::{Collator, CollatorPreferences};
use icu::locale::Locale;
use vstd::prelude::*;

use crate::comparison::{
    compare_i128, compare_text, compare_usize, law_text_order, number_order, text_order,
    Comparison,
};
use crate::metadata::{effective_date, entry_date};
use crate::order::{
    arranged, goes_first, law_sort_is_unique, law_sort_keeps_every_item,
    law_sort_orders_every_pair, rearranges, sort_items, stable_sort, total_order, Ranking,
};
use crate::path::PathNames;
use crate::state::{
    entries_of, law_new_entries_keep_selection, lists_path, AppState, EntryView, MediaEntry,
    SortMode, StateView,
};
use crate::text::{str_of, text_of};

verus! {

/// Whether a text is a locale identifier.
pub uninterp spec fn locale_identifier(text: Seq<char>) -> bool;

/// Whether there is collation data for a locale, or for no particular locale.
pub uninterp spec fn collates(locale: Option<Seq<char>>) -> bool;

/// The sort key of a text in the alphabetical order of a locale, or of no particular
/// locale.
pub uninterp spec fn sort_key(locale: Option<Seq<char>>, text: Seq<char>) -> Seq<u8>;

/// How one sort key stands to another: byte by byte, a key before the longer ones that
/// start with it.
pub open spec fn key_order(a: Seq<u8>, b: Seq<u8>) -> Comparison
    decreases a.len(),
{
    if a.len() == 0 || b.len() == 0 {
        number_order(a.len() as int, b.len() as int)
    } else {
        number_order(a[0] as int, b[0] as int).refined(key_order(a.skip(1), b.skip(1)))
    }
}

/// How one text stands to another in the alphabetical order of a locale, or of
/// no particular locale; nothing where there is no collation data for it.
pub open spec fn collation(
    locale: Option<Seq<char>>,
    left: Seq<char>,
    right: Seq<char>,
) -> Option<Comparison> {
    if collates(locale) {
        Some(key_order(sort_key(locale, left), sort_key(locale, right)))
    } else {
        None
    }
}

/// `str::parse::<icu::locale::Locale>` succeeds on the locale identifiers.
#[verifier::external_body]
fn parses_as_locale(text: &str) -> (valid: bool)
    ensures
        valid == locale_identifier(text@),
{
    text.parse::<Locale>().is_ok()
}

/// `icu::collator::Collator::try_new` for a locale, or for the root locale where
/// none is given, and `CollatorBorrowed::compare` with it. Whether there is a collator
/// depends on the identifier of the locale alone. It compares two texts as their sort
/// keys compare byte by byte: `CollatorBorrowed::write_sort_key_to` documents that these
/// give the result of a comparison of the texts. A sort key depends on the locale and
/// its text alone.
#[verifier::external_body]
fn collate(locale: Option<&str>, left: &str, right: &str) -> (result: Option<Comparison>)
    ensures
        result == if collates(str_of(locale)) {
            Some(
                key_order(sort_key(str_of(locale), left@), sort_key(str_of(locale), right@)),
            )
        } else {
            None
        },
{
    let parsed = locale.and_then(|text| text.parse::<Locale>().ok());
    let prefs = parsed.map(CollatorPreferences::from).unwrap_or_default();
    let collator = Collator::try_new(prefs, CollatorOptions::default()).ok()?;
    Some(match collator.compare(left, right) {
        std::cmp::Ordering::Less => Comparison::Less,
        std::cmp::Ordering::Equal => Comparison::Equal,
        std::cmp::Ordering::Greater => Comparison::Greater,
    })
}

/// The locale that names are sorted for; a text that is no locale identifier
/// stands for none.
pub open spec fn sort_locale(locale: Option<Seq<char>>) -> Option<Seq<char>> {
    match locale {
        Some(text) => if locale_identifier(text) {
            Some(text)
        } else {
            None
        },
        None => None,
    }
}

/// How one entry's date stands to another's; an entry without a date stands
/// below those with one.
pub open spec fn date_order(a: EntryView, b: EntryView) -> Comparison {
    match (entry_date(a), entry_date(b)) {
        (Some(left), Some(right)) => number_order(left as int, right as int),
        (Some(_), None) => Comparison::Greater,
        (None, Some(_)) => Comparison::Less,
        (None, None) => discovery_order(a, b),
    }
}

/// Which entry was discovered first.
pub open spec fn discovery_order(a: EntryView, b: EntryView) -> Comparison {
    number_order(a.discovered_order as int, b.discovered_order as int)
}

impl SortMode {
    /// Whether the mode sorts by time, so that it needs the dates of the entries.
    pub fn by_time(self) -> (yes: bool)
        ensures
            yes == (self == SortMode::Newest || self == SortMode::Oldest),
    {
        match self {
            SortMode::Newest | SortMode::Oldest => true,
            SortMode::Discovered | SortMode::NameAsc | SortMode::NameDesc => false,
        }
    }
}

/// How one entry's file name stands to another's: by the alphabet of the locale,
/// by the codes of the characters without one, and by the quoted forms where a
/// name is no Unicode text.
pub open spec fn name_order(a: EntryView, b: EntryView, locale: Option<Seq<char>>) -> Comparison {
    match (a.file_name.text, b.file_name.text) {
        (Some(left), Some(right)) => match collation(locale, left, right) {
            Some(result) => result,
            None => text_order(left, right),
        },
        _ => text_order(a.file_name.quoted, b.file_name.quoted),
    }
}

/// How one entry stands to another in a sort mode, with names in the order of a
/// locale.
pub open spec fn entry_order(
    a: EntryView,
    b: EntryView,
    mode: SortMode,
    locale: Option<Seq<char>>,
) -> Comparison {
    match mode {
        SortMode::Discovered => discovery_order(a, b),
        SortMode::Newest => date_order(a, b).flipped().refined(discovery_order(a, b)),
        SortMode::Oldest => date_order(a, b).refined(discovery_order(a, b)),
        SortMode::NameAsc => name_order(a, b, locale).refined(discovery_order(a, b)),
        SortMode::NameDesc => name_order(a, b, locale).refined(discovery_order(a, b)).flipped(),
    }
}

/// The order of a sort mode, as a relation.
pub open spec fn entry_before(mode: SortMode, locale: Option<Seq<char>>) -> spec_fn(
    EntryView,
    EntryView,
) -> bool {
    |a: EntryView, b: EntryView|
        entry_order(a, b, mode, sort_locale(locale)) != Comparison::Greater
}

/// Whether one list of entries is the sort of another in a mode.
pub open spec fn sorted_entries(
    input: Seq<EntryView>,
    output: Seq<EntryView>,
    mode: SortMode,
    locale: Option<Seq<char>>,
) -> bool {
    stable_sort(input, output, entry_before(mode, locale))
}

/// A sort mode with the locale of its names.
struct EntryRanking {
    mode: SortMode,
    locale: Option<String>,
}

impl Ranking<MediaEntry> for EntryRanking {
    closed spec fn before(&self, a: MediaEntry, b: MediaEntry) -> bool {
        entry_order(a@, b@, self.mode, text_of(self.locale)) != Comparison::Greater
    }

    fn is_before(&self, a: &MediaEntry, b: &MediaEntry) -> (yes: bool) {
        let order = match self.mode {
            SortMode::Discovered => compare_usize(a.discovered_order, b.discovered_order),
            SortMode::Newest | SortMode::Oldest => compare_time(a, b, self.mode),
            SortMode::NameAsc | SortMode::NameDesc => compare_name(a, b, self.mode, &self.locale),
        };
        match order {
            Comparison::Greater => false,
            _ => true,
        }
    }
}

/// Compares two entries by their dates, in one of the two time modes.
fn compare_time(a: &MediaEntry, b: &MediaEntry, mode: SortMode) -> (result: Comparison)
    requires
        mode == SortMode::Newest || mode == SortMode::Oldest,
    ensures
        result == entry_order(a@, b@, mode, None),
{
    let discovered = compare_usize(a.discovered_order, b.discovered_order);
    let dated = match (effective_date(a), effective_date(b)) {
        (Some(left), Some(right)) => compare_i128(left, right),
        (Some(_), None) => Comparison::Greater,
        (None, Some(_)) => Comparison::Less,
        (None, None) => discovered,
    };
    match mode {
        SortMode::Newest => dated.flip().refine(discovered),
        _ => dated.refine(discovered),
    }
}

/// How one entry stands to another by its name, where that stands so in the alphabet:
/// by the codes of the characters where there is none, and by the quoted forms where a
/// name is no Unicode text. Where the names are equal, the discovery decides.
pub open spec fn ranked_by_name(
    a: EntryView,
    b: EntryView,
    collated: Option<Comparison>,
    mode: SortMode,
) -> Comparison {
    let named = match (a.file_name.text, b.file_name.text) {
        (Some(left), Some(right)) => match collated {
            Some(result) => result,
            None => text_order(left, right),
        },
        _ => text_order(a.file_name.quoted, b.file_name.quoted),
    };
    let order = named.refined(discovery_order(a, b));
    if mode == SortMode::NameDesc {
        order.flipped()
    } else {
        order
    }
}

/// Compares two entries by their names, which stand so in the alphabet.
pub fn rank_by_name(
    a: &MediaEntry,
    b: &MediaEntry,
    collated: Option<Comparison>,
    mode: SortMode,
) -> (result: Comparison)
    ensures
        result == ranked_by_name(a@, b@, collated, mode),
{
    let named = match (&a.file_name.text, &b.file_name.text) {
        (Some(left), Some(right)) => match collated {
            Some(result) => result,
            None => compare_text(left.as_str(), right.as_str()),
        },
        _ => compare_text(a.file_name.quoted.as_str(), b.file_name.quoted.as_str()),
    };
    let order = named.refine(compare_usize(a.discovered_order, b.discovered_order));
    match mode {
        SortMode::NameDesc => order.flip(),
        _ => order,
    }
}

/// Compares two entries by their names, in one of the two name modes.
fn compare_name(
    a: &MediaEntry,
    b: &MediaEntry,
    mode: SortMode,
    locale: &Option<String>,
) -> (result: Comparison)
    requires
        mode == SortMode::NameAsc || mode == SortMode::NameDesc,
    ensures
        result == entry_order(a@, b@, mode, text_of(*locale)),
{
    let collated = match (&a.file_name.text, &b.file_name.text) {
        (Some(left), Some(right)) => match locale {
            Some(text) => collate(Some(text.as_str()), left.as_str(), right.as_str()),
            None => collate(None, left.as_str(), right.as_str()),
        },
        _ => None,
    };
    rank_by_name(a, b, collated, mode)
}

/// The locale to sort names for.
fn build_collator(locale: Option<&str>) -> (result: Option<String>)
    ensures
        text_of(result) == sort_locale(str_of(locale)),
{
    match locale {
        Some(text) => if parses_as_locale(text) {
            Some(text.to_owned())
        } else {
            None
        },
        None => None,
    }
}

/// Sorts entries in a mode, keeping the order of those that rank the same.
pub fn sort_entries(entries: &mut Vec<MediaEntry>, mode: SortMode, locale: Option<&str>)
    ensures
        sorted_entries(
            entries_of(old(entries)@),
            entries_of(final(entries)@),
            mode,
            str_of(locale),
        ),
{
    let ranking = EntryRanking { mode, locale: build_collator(locale) };
    let mut items: Vec<MediaEntry> = Vec::new();
    core::mem::swap(entries, &mut items);
    let ghost input = items@;
    let mut sorted = sort_items(items, &ranking);
    proof {
        let exec_before = |a: MediaEntry, b: MediaEntry| ranking.before(a, b);
        let order = choose|order: Seq<int>| arranged(input, sorted@, exec_before, order);
        assert(arranged(
            entries_of(input),
            entries_of(sorted@),
            entry_before(mode, str_of(locale)),
            order,
        ));
    }
    core::mem::swap(entries, &mut sorted);
}

impl StateView {
    /// The state after its entries were sorted into a list.
    #[verifier::opaque]
    pub open spec fn resorted(self, mode: SortMode, sorted: Seq<EntryView>) -> StateView {
        (StateView { sort_mode: mode, ..self }).with_entries(sorted, self.current_path())
    }

    /// The state after a scan that found a list of entries; nothing is marked.
    #[verifier::opaque]
    pub open spec fn rescanned(self, sorted: Seq<EntryView>) -> StateView {
        StateView {
            delete_queue: Seq::empty(),
            ..self.with_entries(sorted, self.current_path())
        }
    }
}

impl AppState {
    /// Sorts the entries in a mode, keeping the selection on its file.
    pub fn resort(&mut self, mode: SortMode, locale: Option<&str>)
        ensures
            exists|sorted: Seq<EntryView>| #[trigger]
                sorted_entries(old(self)@.entries, sorted, mode, str_of(locale)) && final(self)@
                    == old(self)@.resorted(mode, sorted),
    {
        proof {
            reveal(StateView::resorted);
        }
        let previous = self.current_path();
        self.sort_mode = mode;
        let mut entries: Vec<MediaEntry> = Vec::new();
        core::mem::swap(&mut self.entries, &mut entries);
        sort_entries(&mut entries, mode, locale);
        let ghost sorted = entries_of(entries@);
        assert(sorted_entries(old(self)@.entries, sorted, mode, str_of(locale)));
        let ghost before = self@;
        self.set_entries_preserving_current(entries, previous);
        proof {
            reveal(StateView::with_entries);
            assert(before.with_entries(sorted, old(self)@.current_path()) == (StateView {
                sort_mode: mode,
                ..old(self)@
            }).with_entries(sorted, old(self)@.current_path()));
        }
    }

    /// Takes the entries of a scan, keeping the selection on its file and
    /// unmarking every file.
    pub fn take_scan(&mut self, entries: Vec<MediaEntry>, locale: Option<&str>)
        ensures
            exists|sorted: Seq<EntryView>| #[trigger]
                sorted_entries(
                    entries_of(entries@),
                    sorted,
                    old(self)@.sort_mode,
                    str_of(locale),
                ) && final(self)@ == old(self)@.rescanned(sorted),
    {
        proof {
            reveal(StateView::rescanned);
        }
        let ghost input = entries_of(entries@);
        let mut entries = entries;
        let previous = self.current_path();
        sort_entries(&mut entries, self.sort_mode, locale);
        let ghost sorted = entries_of(entries@);
        assert(sorted_entries(input, sorted, old(self)@.sort_mode, str_of(locale)));
        self.set_entries_preserving_current(entries, previous);
        self.delete_queue.clear();
    }
}

/// The order by time after another one.
pub fn next_time_sort(mode: SortMode) -> (next: SortMode)
    ensures
        next == time_sort_after(mode),
{
    match mode {
        SortMode::Newest => SortMode::Oldest,
        _ => SortMode::Newest,
    }
}

/// The order by name after another one.
pub fn next_name_sort(mode: SortMode) -> (next: SortMode)
    ensures
        next == name_sort_after(mode),
{
    match mode {
        SortMode::NameAsc => SortMode::NameDesc,
        _ => SortMode::NameAsc,
    }
}

/// The order by time after another one: newest first, then oldest first.
pub open spec fn time_sort_after(mode: SortMode) -> SortMode {
    if mode == SortMode::Newest {
        SortMode::Oldest
    } else {
        SortMode::Newest
    }
}

/// The order by name after another one: ascending, then descending.
pub open spec fn name_sort_after(mode: SortMode) -> SortMode {
    if mode == SortMode::NameAsc {
        SortMode::NameDesc
    } else {
        SortMode::NameAsc
    }
}

/// The orders of discovery and of time relate any two entries, and chain.
pub proof fn law_time_orders_are_total(mode: SortMode, locale: Option<Seq<char>>)
    requires
        mode == SortMode::Discovered || mode == SortMode::Newest || mode == SortMode::Oldest,
    ensures
        total_order(entry_before(mode, locale)),
{
}

/// How one text stands to another in the alphabet of a locale, or by the codes of
/// the characters where there is none.
pub open spec fn alphabet_order(
    a: Seq<char>,
    b: Seq<char>,
    locale: Option<Seq<char>>,
) -> Comparison {
    match collation(locale, a, b) {
        Some(result) => result,
        None => text_order(a, b),
    }
}

/// The order of sort keys is an order: what it says of two keys is the opposite of what it
/// says of them the other way round, and it chains.
pub proof fn law_key_order(a: Seq<u8>, b: Seq<u8>, c: Seq<u8>)
    ensures
        key_order(b, a) == key_order(a, b).flipped(),
        key_order(a, b) != Comparison::Greater && key_order(b, c) != Comparison::Greater
            ==> key_order(a, c) != Comparison::Greater,
    decreases a.len() + b.len() + c.len(),
{
    if a.len() > 0 && b.len() > 0 && c.len() > 0 {
        law_key_order(a.skip(1), b.skip(1), c.skip(1));
        law_key_order(b.skip(1), c.skip(1), a.skip(1));
    } else if a.len() > 0 && b.len() > 0 {
        law_key_order(a.skip(1), b.skip(1), c);
    }
}

/// The alphabet of every locale is an order: what it says of two texts is the opposite of
/// what it says of them the other way round, and it chains.
pub proof fn law_alphabets_are_orders(
    a: Seq<char>,
    b: Seq<char>,
    c: Seq<char>,
    locale: Option<Seq<char>>,
)
    ensures
        alphabet_order(b, a, locale) == alphabet_order(a, b, locale).flipped(),
        alphabet_order(a, b, locale) != Comparison::Greater && alphabet_order(b, c, locale)
            != Comparison::Greater ==> alphabet_order(a, c, locale) != Comparison::Greater,
{
    law_key_order(sort_key(locale, a), sort_key(locale, b), sort_key(locale, c));
    law_text_order(a, b, c);
}

/// Whether every file name of a list is Unicode text.
pub open spec fn named_in_unicode(entries: Seq<EntryView>) -> bool {
    forall|i: int| 0 <= i < entries.len() ==> (#[trigger] entries[i]).file_name.text is Some
}

/// Whether no two entries of a list were discovered at the same time.
pub open spec fn discovered_apart(entries: Seq<EntryView>) -> bool {
    forall|i: int, j: int|
        0 <= i < j < entries.len() ==> (#[trigger] entries[i]).discovered_order != (
        #[trigger] entries[j]).discovered_order
}

/// The text that an entry is ranked by among those with Unicode names.
spec fn name_text(entry: EntryView) -> Seq<char> {
    match entry.file_name.text {
        Some(text) => text,
        None => Seq::empty(),
    }
}

/// The order of a name mode among entries with Unicode names.
spec fn text_rank(mode: SortMode, locale: Option<Seq<char>>) -> spec_fn(
    EntryView,
    EntryView,
) -> bool {
    |a: EntryView, b: EntryView|
        {
            let order = alphabet_order(name_text(a), name_text(b), sort_locale(locale)).refined(
                discovery_order(a, b),
            );
            (if mode == SortMode::NameDesc {
                order.flipped()
            } else {
                order
            }) != Comparison::Greater
        }
}

proof fn lemma_text_rank_is_total(mode: SortMode, locale: Option<Seq<char>>)
    ensures
        total_order(text_rank(mode, locale)),
{
    let rank = text_rank(mode, locale);
    let chosen = sort_locale(locale);
    assert forall|a: EntryView, b: EntryView| #[trigger] rank(a, b) || rank(b, a) by {
        law_alphabets_are_orders(name_text(a), name_text(b), name_text(a), chosen);
    }
    assert forall|a: EntryView, b: EntryView, c: EntryView| #[trigger]
        rank(a, b) && #[trigger] rank(b, c) implies rank(a, c) by {
        let (x, y, z) = (name_text(a), name_text(b), name_text(c));
        law_alphabets_are_orders(x, y, z, chosen);
        law_alphabets_are_orders(z, y, x, chosen);
        law_alphabets_are_orders(y, z, x, chosen);
        law_alphabets_are_orders(z, x, y, chosen);
        law_alphabets_are_orders(x, z, y, chosen);
        law_alphabets_are_orders(y, x, z, chosen);
    }
}

/// The orders by name relate any two entries whose names are Unicode text, and chain.
pub proof fn law_name_orders_are_total(
    mode: SortMode,
    locale: Option<Seq<char>>,
    a: EntryView,
    b: EntryView,
    c: EntryView,
)
    requires
        mode == SortMode::NameAsc || mode == SortMode::NameDesc,
        a.file_name.text is Some,
        b.file_name.text is Some,
        c.file_name.text is Some,
    ensures
        entry_before(mode, locale)(a, b) || entry_before(mode, locale)(b, a),
        entry_before(mode, locale)(a, b) && entry_before(mode, locale)(b, c) ==> entry_before(
            mode,
            locale,
        )(a, c),
{
    let rank = text_rank(mode, locale);
    lemma_text_rank_is_total(mode, locale);
    assert(rank(a, b) == entry_before(mode, locale)(a, b));
    assert(rank(b, a) == entry_before(mode, locale)(b, a));
    assert(rank(b, c) == entry_before(mode, locale)(b, c));
    assert(rank(a, c) == entry_before(mode, locale)(a, c));
}

/// Among entries with Unicode names the two ways to rank them agree.
proof fn lemma_ranked_by_text(
    input: Seq<EntryView>,
    output: Seq<EntryView>,
    mode: SortMode,
    locale: Option<Seq<char>>,
    order: Seq<int>,
)
    requires
        mode == SortMode::NameAsc || mode == SortMode::NameDesc,
        named_in_unicode(input),
        arranged(input, output, entry_before(mode, locale), order),
    ensures
        arranged(input, output, text_rank(mode, locale), order),
{
    let rank = text_rank(mode, locale);
    let before = entry_before(mode, locale);
    assert forall|i: int, j: int| 0 <= i < input.len() && 0 <= j < input.len() implies #[trigger] rank(
        input[i],
        input[j],
    ) == before(input[i], input[j]) by {}
    assert forall|i: int| 0 <= i < order.len() - 1 implies goes_first(
        input,
        rank,
        #[trigger] order[i],
        order[i + 1],
    ) by {
        assert(goes_first(input, before, order[i], order[i + 1]));
        assert(0 <= order[i + 1] < input.len());
        assert(rank(input[order[i]], input[order[i + 1]]) == before(
            input[order[i]],
            input[order[i + 1]],
        ));
        assert(rank(input[order[i + 1]], input[order[i]]) == before(
            input[order[i + 1]],
            input[order[i]],
        ));
    }
}

/// In a list sorted by name no entry stands in front of one that the alphabet puts
/// before it, or behind it in the descending order; of those with one name the first
/// discovered comes first, or last.
pub proof fn law_names_follow_the_alphabet(
    input: Seq<EntryView>,
    output: Seq<EntryView>,
    mode: SortMode,
    locale: Option<Seq<char>>,
    i: int,
    j: int,
)
    requires
        mode == SortMode::NameAsc || mode == SortMode::NameDesc,
        named_in_unicode(input),
        sorted_entries(input, output, mode, locale),
        0 <= i < j < output.len(),
    ensures
        mode == SortMode::NameAsc ==> name_order(output[i], output[j], sort_locale(locale))
            != Comparison::Greater,
        mode == SortMode::NameDesc ==> name_order(output[i], output[j], sort_locale(locale))
            != Comparison::Less,
        name_order(output[i], output[j], sort_locale(locale)) == Comparison::Equal ==> if mode
            == SortMode::NameAsc {
            output[i].discovered_order <= output[j].discovered_order
        } else {
            output[i].discovered_order >= output[j].discovered_order
        },
{
    let order = choose|order: Seq<int>|
        arranged(input, output, entry_before(mode, locale), order);
    lemma_ranked_by_text(input, output, mode, locale, order);
    lemma_text_rank_is_total(mode, locale);
    law_sort_orders_every_pair(input, output, text_rank(mode, locale), order, i, j);
    assert(output[i] == input[order[i]]);
    assert(output[j] == input[order[j]]);
    assert(output[i].file_name.text is Some);
    assert(output[j].file_name.text is Some);
}

/// The descending order by name is the ascending one, reversed.
pub proof fn law_descending_reverses_ascending(
    input: Seq<EntryView>,
    ascending: Seq<EntryView>,
    descending: Seq<EntryView>,
    locale: Option<Seq<char>>,
)
    requires
        named_in_unicode(input),
        discovered_apart(input),
        sorted_entries(input, ascending, SortMode::NameAsc, locale),
        sorted_entries(input, descending, SortMode::NameDesc, locale),
    ensures
        descending == ascending.reverse(),
{
    let up = text_rank(SortMode::NameAsc, locale);
    let down = text_rank(SortMode::NameDesc, locale);
    let chosen = sort_locale(locale);
    let p = choose|order: Seq<int>|
        arranged(input, ascending, entry_before(SortMode::NameAsc, locale), order);
    let q = choose|order: Seq<int>|
        arranged(input, descending, entry_before(SortMode::NameDesc, locale), order);
    lemma_ranked_by_text(input, ascending, SortMode::NameAsc, locale, p);
    lemma_ranked_by_text(input, descending, SortMode::NameDesc, locale, q);
    lemma_text_rank_is_total(SortMode::NameDesc, locale);
    let turned = p.reverse();
    let len = input.len() as int;
    assert forall|i: int| 0 <= i < turned.len() - 1 implies goes_first(
        input,
        down,
        #[trigger] turned[i],
        turned[i + 1],
    ) by {
        let k = len - 2 - i;
        assert(turned[i] == p[k + 1]);
        assert(turned[i + 1] == p[k]);
        assert(goes_first(input, up, p[k], p[k + 1]));
        assert(p[k] != p[k + 1]);
        let x = input[p[k]];
        let y = input[p[k + 1]];
        if p[k] < p[k + 1] {
            assert(input[p[k]].discovered_order != input[p[k + 1]].discovered_order);
        } else {
            assert(input[p[k + 1]].discovered_order != input[p[k]].discovered_order);
        }
        law_alphabets_are_orders(name_text(x), name_text(y), name_text(x), chosen);
    }
    assert(rearranges(turned, input.len())) by {
        assert forall|i: int, j: int|
            0 <= i < turned.len() && 0 <= j < turned.len() && i != j implies turned[i]
            != turned[j] by {
            assert(p[len - 1 - i] != p[len - 1 - j]);
        }
    }
    assert(arranged(input, ascending.reverse(), down, turned));
    law_sort_is_unique(input, ascending.reverse(), descending, down);
}

/// In the order of discovery the numbers rise.
pub proof fn law_discovered_numbers_rise(
    input: Seq<EntryView>,
    output: Seq<EntryView>,
    locale: Option<Seq<char>>,
    i: int,
    j: int,
)
    requires
        sorted_entries(input, output, SortMode::Discovered, locale),
        0 <= i < j < output.len(),
    ensures
        output[i].discovered_order <= output[j].discovered_order,
{
    let before = entry_before(SortMode::Discovered, locale);
    law_time_orders_are_total(SortMode::Discovered, locale);
    let order = choose|order: Seq<int>| arranged(input, output, before, order);
    law_sort_orders_every_pair(input, output, before, order, i, j);
}

/// Newest first, the dates fall and entries without a date come last; oldest first,
/// the dates rise and entries without a date come first. Of entries with one date the
/// first discovered comes first; of those without one it does so when the oldest do,
/// and last otherwise.
pub proof fn law_dates_fall_or_rise(
    input: Seq<EntryView>,
    output: Seq<EntryView>,
    mode: SortMode,
    locale: Option<Seq<char>>,
    i: int,
    j: int,
)
    requires
        mode == SortMode::Newest || mode == SortMode::Oldest,
        sorted_entries(input, output, mode, locale),
        0 <= i < j < output.len(),
    ensures
        match (entry_date(output[i]), entry_date(output[j])) {
            (Some(first), Some(second)) => {
                &&& mode == SortMode::Newest ==> first >= second
                &&& mode == SortMode::Oldest ==> first <= second
                &&& first == second ==> output[i].discovered_order <= output[j].discovered_order
            },
            (Some(_), None) => mode == SortMode::Newest,
            (None, Some(_)) => mode == SortMode::Oldest,
            (None, None) => if mode == SortMode::Oldest {
                output[i].discovered_order <= output[j].discovered_order
            } else {
                output[i].discovered_order >= output[j].discovered_order
            },
        },
{
    let before = entry_before(mode, locale);
    law_time_orders_are_total(mode, locale);
    let order = choose|order: Seq<int>| arranged(input, output, before, order);
    law_sort_orders_every_pair(input, output, before, order, i, j);
}

/// Sorting keeps the selection on its file and every mark, and a state sound.
pub proof fn law_sorting_keeps_selection_and_marks(
    state: StateView,
    mode: SortMode,
    sorted: Seq<EntryView>,
    locale: Option<Seq<char>>,
)
    requires
        state.sound(),
        sorted_entries(state.entries, sorted, mode, locale),
    ensures
        state.resorted(mode, sorted).sound(),
        state.resorted(mode, sorted).current_path() == state.current_path(),
        forall|path: PathNames| #[trigger]
            state.resorted(mode, sorted).delete_queue.contains(path)
                <==> state.delete_queue.contains(path),
{
    reveal(StateView::resorted);
    let before = entry_before(mode, locale);
    assert(sorted.len() == state.entries.len()) by {
        let order = choose|order: Seq<int>| arranged(state.entries, sorted, before, order);
        assert(arranged(state.entries, sorted, before, order));
    }
    law_new_entries_keep_selection(
        StateView { sort_mode: mode, ..state },
        sorted,
        state.current_path(),
    );
    assert forall|path: PathNames| lists_path(state.entries, path) implies #[trigger] lists_path(
        sorted,
        path,
    ) by {
        let i = choose|i: int|
            0 <= i < state.entries.len() && (#[trigger] state.entries[i]).path == path;
        law_sort_keeps_every_item(state.entries, sorted, before, state.entries[i]);
        assert(state.entries.contains(state.entries[i]));
        let j = sorted.index_of(state.entries[i]);
        assert(sorted[j].path == path);
    }
    match state.current_path() {
        Some(path) => {
            assert(state.entries[state.current_index as int].path == path);
            assert(lists_path(state.entries, path));
            assert(lists_path(sorted, path));
        },
        None => {
            assert(state.entries.len() == 0);
            assert(state.resorted(mode, sorted).entries.len() == 0);
        },
    }
}

/// A scan leaves a sound state without marks, whose selection stays on its file where
/// that is still found.
pub proof fn law_scan_takes_marks_off(state: StateView, sorted: Seq<EntryView>)
    requires
        state.sound(),
        sorted.len() <= usize::MAX,
    ensures
        state.rescanned(sorted).sound(),
        state.rescanned(sorted).entries == sorted,
        state.rescanned(sorted).delete_queue.len() == 0,
        state.current_path() matches Some(path) ==> lists_path(sorted, path) ==> state.rescanned(
            sorted,
        ).current_path() == Some(path),
{
    reveal(StateView::rescanned);
    law_new_entries_keep_selection(state, sorted, state.current_path());
}

/// Whether a list of numbers comes before another one or is the same: at the first place
/// where they differ it has the smaller number, or it ends there.
pub open spec fn comes_first(a: Seq<int>, b: Seq<int>) -> bool {
    exists|k: int| first_difference(a, b, k)
}

/// Whether two lists of numbers are the same before a place, and the first ends there or
/// has the smaller number.
pub open spec fn first_difference(a: Seq<int>, b: Seq<int>, k: int) -> bool {
    &&& 0 <= k <= a.len()
    &&& k <= b.len()
    &&& forall|i: int| 0 <= i < k ==> #[trigger] a[i] == b[i]
    &&& k == a.len() || (k < b.len() && a[k] < b[k])
}

/// The bytes of a sort key as numbers.
pub open spec fn key_numbers(key: Seq<u8>) -> Seq<int> {
    Seq::new(key.len(), |i: int| key[i] as int)
}

/// The codes of the characters of a text.
pub open spec fn text_codes(text: Seq<char>) -> Seq<int> {
    Seq::new(text.len(), |i: int| text[i] as int)
}

proof fn lemma_key_comes_first(a: Seq<u8>, b: Seq<u8>)
    requires
        key_order(a, b) != Comparison::Greater,
    ensures
        comes_first(key_numbers(a), key_numbers(b)),
    decreases a.len(),
{
    let (x, y) = (key_numbers(a), key_numbers(b));
    if a.len() == 0 {
        assert(first_difference(x, y, 0));
    } else if b.len() == 0 {
    } else if a[0] < b[0] {
        assert(x[0] < y[0]);
        assert(first_difference(x, y, 0));
    } else {
        lemma_key_comes_first(a.skip(1), b.skip(1));
        let (p, q) = (key_numbers(a.skip(1)), key_numbers(b.skip(1)));
        let k = choose|k: int| first_difference(p, q, k);
        assert(first_difference(p, q, k));
        assert forall|i: int| 0 <= i < k + 1 implies #[trigger] x[i] == y[i] by {
            if i > 0 {
                assert(p[i - 1] == q[i - 1]);
            }
        }
        if k < p.len() && k < q.len() {
            assert(x[k + 1] == p[k] && y[k + 1] == q[k]);
        }
        assert(first_difference(x, y, k + 1));
    }
}

proof fn lemma_text_comes_first(a: Seq<char>, b: Seq<char>)
    requires
        text_order(a, b) != Comparison::Greater,
    ensures
        comes_first(text_codes(a), text_codes(b)),
    decreases a.len(),
{
    let (x, y) = (text_codes(a), text_codes(b));
    if a.len() == 0 {
        assert(first_difference(x, y, 0));
    } else if b.len() == 0 {
    } else if (a[0] as int) < b[0] as int {
        assert(x[0] < y[0]);
        assert(first_difference(x, y, 0));
    } else {
        lemma_text_comes_first(a.skip(1), b.skip(1));
        let (p, q) = (text_codes(a.skip(1)), text_codes(b.skip(1)));
        let k = choose|k: int| first_difference(p, q, k);
        assert(first_difference(p, q, k));
        assert forall|i: int| 0 <= i < k + 1 implies #[trigger] x[i] == y[i] by {
            if i > 0 {
                assert(p[i - 1] == q[i - 1]);
            }
        }
        if k < p.len() && k < q.len() {
            assert(x[k + 1] == p[k] && y[k + 1] == q[k]);
        }
        assert(first_difference(x, y, k + 1));
    }
}

/// Sorted by name, the sort keys of the names in the locale rise from one file to the next,
/// or fall in the descending order; where there is no data for the locale, the codes of
/// their characters do. A text that is no locale identifier stands for no locale.
pub proof fn law_names_rise_by_their_sort_keys(
    input: Seq<EntryView>,
    output: Seq<EntryView>,
    mode: SortMode,
    locale: Option<Seq<char>>,
    i: int,
    j: int,
)
    requires
        mode == SortMode::NameAsc || mode == SortMode::NameDesc,
        named_in_unicode(input),
        sorted_entries(input, output, mode, locale),
        0 <= i < j < output.len(),
    ensures
        ({
            let chosen = match locale {
                Some(text) => if locale_identifier(text) {
                    Some(text)
                } else {
                    None
                },
                None => None,
            };
            let first = if mode == SortMode::NameAsc {
                output[i].file_name.text.unwrap()
            } else {
                output[j].file_name.text.unwrap()
            };
            let second = if mode == SortMode::NameAsc {
                output[j].file_name.text.unwrap()
            } else {
                output[i].file_name.text.unwrap()
            };
            &&& collates(chosen) ==> comes_first(
                key_numbers(sort_key(chosen, first)),
                key_numbers(sort_key(chosen, second)),
            )
            &&& !collates(chosen) ==> comes_first(text_codes(first), text_codes(second))
            &&& first == second ==> if mode == SortMode::NameAsc {
                output[i].discovered_order <= output[j].discovered_order
            } else {
                output[i].discovered_order >= output[j].discovered_order
            }
        }),
{
    law_names_follow_the_alphabet(input, output, mode, locale, i, j);
    let order = choose|order: Seq<int>|
        arranged(input, output, entry_before(mode, locale), order);
    assert(output[i] == input[order[i]]);
    assert(output[j] == input[order[j]]);
    assert(output[i].file_name.text is Some && output[j].file_name.text is Some);
    let chosen = sort_locale(locale);
    let a = output[i].file_name.text.unwrap();
    let b = output[j].file_name.text.unwrap();
    let (x, y) = (sort_key(chosen, a), sort_key(chosen, b));
    law_key_order(x, y, x);
    law_text_order(a, b, a);
    if a == b {
        law_key_order(x, x, x);
    }
    if collates(chosen) {
        if mode == SortMode::NameAsc {
            lemma_key_comes_first(x, y);
        } else {
            lemma_key_comes_first(y, x);
        }
    } else {
        if mode == SortMode::NameAsc {
            lemma_text_comes_first(a, b);
        } else {
            lemma_text_comes_first(b, a);
        }
    }
}

} // verus!
