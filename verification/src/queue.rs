//! Insertion-ordered sets of paths, such as the files marked for deletion.

use indexmap::IndexSet;
use vstd::prelude::*;

use crate::path::{names_copy, names_of, names_same, paths_of, MediaPath, PathNames};
use crate::state::{entries_of, lists_path, MediaEntry};

verus! {

/// `indexmap::IndexSet`, a hash set that remembers insertion order.
#[verifier::external_type_specification]
#[verifier::external_body]
#[verifier::reject_recursive_types(T)]
#[verifier::reject_recursive_types(S)]
pub struct ExIndexSet<T, S>(indexmap::IndexSet<T, S>);

/// The paths that a set holds, in insertion order.
pub uninterp spec fn set_paths(set: IndexSet<Vec<Vec<u8>>>) -> Seq<Seq<Seq<u8>>>;

/// `IndexSet::new` makes a set without elements.
#[verifier::external_body]
fn set_new() -> (set: IndexSet<Vec<Vec<u8>>>)
    ensures
        set_paths(set) == Seq::<Seq<Seq<u8>>>::empty(),
{
    IndexSet::new()
}

/// `IndexSet::len` counts the elements.
#[verifier::external_body]
fn set_len(set: &IndexSet<Vec<Vec<u8>>>) -> (len: usize)
    ensures
        len == set_paths(*set).len(),
{
    set.len()
}

/// `IndexSet::contains` looks an element up.
#[verifier::external_body]
fn set_contains(set: &IndexSet<Vec<Vec<u8>>>, path: &Vec<Vec<u8>>) -> (found: bool)
    ensures
        found == set_paths(*set).contains(names_of(path@)),
{
    set.contains(path)
}

/// `IndexSet::get_index` returns the element at a position, if there is one.
#[verifier::external_body]
fn set_get_index(set: &IndexSet<Vec<Vec<u8>>>, index: usize) -> (path: Option<&Vec<Vec<u8>>>)
    ensures
        match path {
            Some(names) => index < set_paths(*set).len() && names_of(names@) == set_paths(
                *set,
            )[index as int],
            None => index >= set_paths(*set).len(),
        },
{
    set.get_index(index)
}

/// `IndexSet::insert` appends an element unless the set holds it already, and
/// reports whether it was appended.
#[verifier::external_body]
fn set_insert(set: &mut IndexSet<Vec<Vec<u8>>>, path: Vec<Vec<u8>>) -> (inserted: bool)
    ensures
        inserted == !set_paths(*old(set)).contains(names_of(path@)),
        set_paths(*final(set)) == inserted_into(set_paths(*old(set)), names_of(path@)),
        set_paths(*final(set)).no_duplicates(),
{
    set.insert(path)
}

/// `IndexSet::shift_remove` takes an element out, moves the later ones up one
/// position, and reports whether the set held it.
#[verifier::external_body]
fn set_shift_remove(set: &mut IndexSet<Vec<Vec<u8>>>, path: &Vec<Vec<u8>>) -> (removed: bool)
    ensures
        removed == set_paths(*old(set)).contains(names_of(path@)),
        set_paths(*final(set)) == removed_from(set_paths(*old(set)), names_of(path@)),
        set_paths(*final(set)).no_duplicates(),
{
    set.shift_remove(path)
}

/// `IndexSet::clear` takes every element out.
#[verifier::external_body]
fn set_clear(set: &mut IndexSet<Vec<Vec<u8>>>)
    ensures
        set_paths(*final(set)) == Seq::<Seq<Seq<u8>>>::empty(),
{
    set.clear()
}

/// `IndexSet::retain` keeps, in their order, the elements that a test accepts;
/// here the test is [`entry_named`].
#[verifier::external_body]
fn set_retain_entries(set: &mut IndexSet<Vec<Vec<u8>>>, entries: &Vec<MediaEntry>)
    ensures
        set_paths(*final(set)) == set_paths(*old(set)).filter(
            |path: Seq<Seq<u8>>| lists_path(entries_of(entries@), path),
        ),
        set_paths(*final(set)).no_duplicates(),
{
    set.retain(|names| entry_named(entries, names))
}

/// Whether an entry of a list has the path with some component names.
pub fn entry_named(entries: &Vec<MediaEntry>, names: &Vec<Vec<u8>>) -> (found: bool)
    ensures
        found == lists_path(entries_of(entries@), names_of(names@)),
{
    let mut index: usize = 0;
    while index < entries.len()
        invariant
            index <= entries@.len(),
            forall|i: int|
                0 <= i < index ==> (#[trigger] entries_of(entries@)[i]).path != names_of(names@),
        decreases entries@.len() - index,
    {
        if names_same(&entries[index].path.names, names) {
            assert(entries_of(entries@)[index as int].path == names_of(names@));
            return true;
        }
        index += 1;
    }
    false
}

/// An ordered set after a list of paths was put in, one after the other.
pub open spec fn all_inserted(paths: Seq<PathNames>, more: Seq<PathNames>) -> Seq<PathNames>
    decreases more.len(),
{
    if more.len() == 0 {
        paths
    } else {
        inserted_into(all_inserted(paths, more.drop_last()), more.last())
    }
}

/// An ordered set after a list of paths was taken out, one after the other.
pub open spec fn all_removed(paths: Seq<PathNames>, gone: Seq<PathNames>) -> Seq<PathNames>
    decreases gone.len(),
{
    if gone.len() == 0 {
        paths
    } else {
        removed_from(all_removed(paths, gone.drop_last()), gone.last())
    }
}

/// An ordered set after one more path was put in.
pub open spec fn inserted_into(paths: Seq<PathNames>, path: PathNames) -> Seq<PathNames> {
    if paths.contains(path) {
        paths
    } else {
        paths.push(path)
    }
}

/// An ordered set after a path was taken out.
pub open spec fn removed_from(paths: Seq<PathNames>, path: PathNames) -> Seq<PathNames> {
    if paths.contains(path) {
        paths.remove(paths.index_of(path))
    } else {
        paths
    }
}

/// An ordered set of paths, which keep the order in which they were put in.
#[derive(Debug)]
pub struct PathSet {
    set: IndexSet<Vec<Vec<u8>>>,
}

impl View for PathSet {
    type V = Seq<PathNames>;

    closed spec fn view(&self) -> Seq<PathNames> {
        set_paths(self.set)
    }
}

impl PathSet {
    /// The set without paths.
    pub fn new() -> (set: PathSet)
        ensures
            set@ == Seq::<PathNames>::empty(),
            set@.no_duplicates(),
    {
        PathSet { set: set_new() }
    }

    /// The set of the paths of a list, in the order of their first occurrence.
    pub fn from_paths(paths: &Vec<MediaPath>) -> (set: PathSet)
        ensures
            set@ == all_inserted(Seq::empty(), paths_of(paths@)),
            set@.no_duplicates(),
    {
        let mut set = PathSet::new();
        let mut index: usize = 0;
        let ghost all = paths_of(paths@);
        assert(set@ == all_inserted(Seq::empty(), all.take(0)));
        while index < paths.len()
            invariant
                all == paths_of(paths@),
                index <= paths@.len(),
                set@ == all_inserted(Seq::empty(), all.take(index as int)),
                set@.no_duplicates(),
            decreases paths@.len() - index,
        {
            set.insert(&paths[index]);
            index += 1;
            assert(all.take(index as int).drop_last() =~= all.take(index - 1));
            assert(all.take(index as int).last() == paths@[index - 1]@);
        }
        assert(all.take(index as int) =~= all);
        set
    }

    /// The number of paths.
    pub fn len(&self) -> (len: usize)
        ensures
            len == self@.len(),
    {
        set_len(&self.set)
    }

    /// Whether there are no paths.
    pub fn is_empty(&self) -> (empty: bool)
        ensures
            empty == (self@.len() == 0),
    {
        set_len(&self.set) == 0
    }

    /// Whether a path is in the set.
    pub fn contains(&self, path: &MediaPath) -> (found: bool)
        ensures
            found == self@.contains(path@),
    {
        set_contains(&self.set, &path.names)
    }

    /// The path at a position.
    pub fn get(&self, index: usize) -> (path: MediaPath)
        requires
            index < self@.len(),
        ensures
            path@ == self@[index as int],
    {
        match set_get_index(&self.set, index) {
            Some(names) => MediaPath { names: names_copy(names) },
            None => MediaPath { names: Vec::new() },
        }
    }

    /// Puts a path at the end, unless the set holds it already; reports whether
    /// it did so.
    pub fn insert(&mut self, path: &MediaPath) -> (inserted: bool)
        ensures
            inserted == !old(self)@.contains(path@),
            final(self)@ == inserted_into(old(self)@, path@),
            final(self)@.no_duplicates(),
    {
        set_insert(&mut self.set, names_copy(&path.names))
    }

    /// Takes every path out.
    pub fn clear(&mut self)
        ensures
            final(self)@ == Seq::<PathNames>::empty(),
            final(self)@.no_duplicates(),
    {
        set_clear(&mut self.set)
    }

    /// Keeps the paths that an entry of a list has.
    pub fn retain_entries(&mut self, entries: &Vec<MediaEntry>)
        ensures
            final(self)@ == old(self)@.filter(
                |path: PathNames| lists_path(entries_of(entries@), path),
            ),
            final(self)@.no_duplicates(),
    {
        set_retain_entries(&mut self.set, entries)
    }

    /// Takes the paths of a list out.
    pub fn remove_all(&mut self, gone: &Vec<MediaPath>)
        ensures
            final(self)@ == all_removed(old(self)@, paths_of(gone@)),
            gone@.len() > 0 ==> final(self)@.no_duplicates(),
            old(self)@.no_duplicates() ==> final(self)@.no_duplicates(),
    {
        let ghost before = self@;
        let ghost all = paths_of(gone@);
        let mut index: usize = 0;
        assert(self@ == all_removed(before, all.take(0)));
        while index < gone.len()
            invariant
                all == paths_of(gone@),
                index <= gone@.len(),
                self@ == all_removed(before, all.take(index as int)),
                index == 0 ==> self@ == before,
                index > 0 || before.no_duplicates() ==> self@.no_duplicates(),
            decreases gone@.len() - index,
        {
            self.shift_remove(&gone[index]);
            index += 1;
            assert(all.take(index as int).drop_last() =~= all.take(index - 1));
            assert(all.take(index as int).last() == gone@[index - 1]@);
        }
        assert(all.take(index as int) =~= all);
    }

    /// The paths in order.
    pub fn to_paths(&self) -> (paths: Vec<MediaPath>)
        ensures
            paths_of(paths@) == self@,
    {
        let mut paths: Vec<MediaPath> = Vec::new();
        let mut index: usize = 0;
        let len = self.len();
        while index < len
            invariant
                len == self@.len(),
                index <= len,
                paths@.len() == index,
                forall|i: int| 0 <= i < index ==> (#[trigger] paths@[i])@ == self@[i],
            decreases len - index,
        {
            paths.push(self.get(index));
            index += 1;
        }
        assert(paths_of(paths@) =~= self@);
        paths
    }

    /// Takes a path out and reports whether the set held it.
    pub fn shift_remove(&mut self, path: &MediaPath) -> (removed: bool)
        ensures
            removed == old(self)@.contains(path@),
            final(self)@ == removed_from(old(self)@, path@),
            final(self)@.no_duplicates(),
    {
        set_shift_remove(&mut self.set, &path.names)
    }
}

/// Taking a path out of an ordered set leaves no duplicates and takes out that
/// path alone.
pub proof fn lemma_removed_distinct(paths: Seq<PathNames>, path: PathNames)
    requires
        paths.no_duplicates(),
    ensures
        removed_from(paths, path).no_duplicates(),
        !removed_from(paths, path).contains(path),
        forall|other: PathNames|
            other != path ==> (#[trigger] removed_from(paths, path).contains(other)
                == paths.contains(other)),
{
    if paths.contains(path) {
        let at = paths.index_of(path);
        let rest = paths.remove(at);
        assert forall|other: PathNames| other != path implies (#[trigger] rest.contains(other)
            == paths.contains(other)) by {
            if paths.contains(other) {
                let i = paths.index_of(other);
                if i < at {
                    assert(rest[i] == other);
                } else {
                    assert(rest[i - 1] == other);
                }
            }
            if rest.contains(other) {
                let i = rest.index_of(other);
                if i < at {
                    assert(paths[i] == other);
                } else {
                    assert(paths[i + 1] == other);
                }
            }
        }
        assert(!rest.contains(path));
    }
}

} // verus!
