//! Paths as lists of component names.

use vstd::prelude::*;

use crate::assoc::Key;

verus! {

/// A path as the list of its component names, each the name's raw bytes.
///
/// The root directory is a component of its own, with the name `/`. Two paths
/// are the same path exactly when their components are.
#[derive(Debug, PartialEq, Eq, Hash)]
pub struct MediaPath {
    pub names: Vec<Vec<u8>>,
}

impl View for MediaPath {
    type V = PathNames;

    open spec fn view(&self) -> PathNames {
        names_of(self.names@)
    }
}

/// The component names of a path.
pub type PathNames = Seq<Seq<u8>>;

/// The contents of a list of byte strings.
pub open spec fn names_of(names: Seq<Vec<u8>>) -> Seq<Seq<u8>> {
    Seq::new(names.len(), |i: int| names[i]@)
}

/// Whether two byte strings hold the same bytes.
pub fn bytes_equal(left: &Vec<u8>, right: &Vec<u8>) -> (equal: bool)
    ensures
        equal == (left@ == right@),
{
    if left.len() != right.len() {
        return false;
    }
    let mut index: usize = 0;
    while index < left.len()
        invariant
            left@.len() == right@.len(),
            index <= left@.len(),
            forall|i: int| 0 <= i < index ==> left@[i] == right@[i],
        decreases left@.len() - index,
    {
        if left[index] != right[index] {
            return false;
        }
        index += 1;
    }
    assert(left@ =~= right@);
    true
}

/// Whether two lists hold the same byte strings.
pub fn names_same(left: &Vec<Vec<u8>>, right: &Vec<Vec<u8>>) -> (same: bool)
    ensures
        same == (names_of(left@) == names_of(right@)),
{
    if left.len() != right.len() {
        assert(names_of(left@).len() != names_of(right@).len());
        return false;
    }
    let mut index: usize = 0;
    while index < left.len()
        invariant
            left@.len() == right@.len(),
            index <= left@.len(),
            forall|i: int| 0 <= i < index ==> (#[trigger] left@[i])@ == right@[i]@,
        decreases left@.len() - index,
    {
        if !bytes_equal(&left[index], &right[index]) {
            assert(names_of(left@)[index as int] != names_of(right@)[index as int]);
            return false;
        }
        index += 1;
    }
    assert(names_of(left@) =~= names_of(right@));
    true
}

/// A copy of a byte string.
pub fn bytes_copy(bytes: &Vec<u8>) -> (copy: Vec<u8>)
    ensures
        copy@ == bytes@,
{
    let copy = bytes.clone();
    assert(copy@ =~= bytes@);
    copy
}

/// A copy of a list of byte strings.
pub fn names_copy(names: &Vec<Vec<u8>>) -> (copy: Vec<Vec<u8>>)
    ensures
        names_of(copy@) == names_of(names@),
{
    let mut copy: Vec<Vec<u8>> = Vec::new();
    let mut index: usize = 0;
    while index < names.len()
        invariant
            index <= names@.len(),
            copy@.len() == index,
            forall|i: int| 0 <= i < index ==> (#[trigger] copy@[i])@ == names@[i]@,
        decreases names@.len() - index,
    {
        copy.push(bytes_copy(&names[index]));
        index += 1;
    }
    assert(names_of(copy@) =~= names_of(names@));
    copy
}

/// The contents of a list of paths.
pub open spec fn paths_of(paths: Seq<MediaPath>) -> Seq<PathNames> {
    Seq::new(paths.len(), |i: int| paths[i]@)
}

/// The contents of an optional path.
pub open spec fn path_of(path: Option<MediaPath>) -> Option<PathNames> {
    match path {
        Some(value) => Some(value@),
        None => None,
    }
}

/// The name of the root component.
pub open spec fn root_name() -> Seq<u8> {
    seq![47u8]
}

/// Whether a component names a file or directory, rather than the root, the
/// current directory or the parent directory.
pub open spec fn ordinary_name(name: Seq<u8>) -> bool {
    name != root_name() && name != seq![46u8] && name != seq![46u8, 46u8]
}

/// The final component of a path, where it names a file or directory.
pub open spec fn file_name_of(path: PathNames) -> Option<Seq<u8>> {
    if path.len() > 0 && ordinary_name(path.last()) {
        Some(path.last())
    } else {
        None
    }
}

/// Whether the last dot of a name is at an index.
pub open spec fn last_dot_at(name: Seq<u8>, dot: int) -> bool {
    &&& 0 <= dot < name.len()
    &&& name[dot] == 46u8
    &&& forall|i: int| dot < i < name.len() ==> name[i] != 46u8
}

/// What follows the last dot of a name, where that dot is not its first byte.
pub open spec fn name_extension(name: Seq<u8>) -> Option<Seq<u8>> {
    if exists|dot: int| 1 <= dot && last_dot_at(name, dot) {
        let dot = choose|dot: int| 1 <= dot && last_dot_at(name, dot);
        Some(name.skip(dot + 1))
    } else {
        None
    }
}

/// The extension of a path's file name.
pub open spec fn extension_of(path: PathNames) -> Option<Seq<u8>> {
    match file_name_of(path) {
        Some(name) => name_extension(name),
        None => None,
    }
}

/// A path without its final component; the root and the empty path have none.
pub open spec fn parent_of(path: PathNames) -> Option<PathNames> {
    if path.len() > 0 && path.last() != root_name() {
        Some(path.drop_last())
    } else {
        None
    }
}

/// Whether the components of a path start with those of another.
pub open spec fn path_within(path: PathNames, root: PathNames) -> bool {
    root.is_prefix_of(path)
}

impl MediaPath {
    /// Whether the components of this path start with those of `base`.
    pub fn starts_with(&self, base: &MediaPath) -> (starts: bool)
        ensures
            starts == path_within(self@, base@),
    {
        if base.names.len() > self.names.len() {
            return false;
        }
        let mut index: usize = 0;
        while index < base.names.len()
            invariant
                base@.len() <= self@.len(),
                index <= base@.len(),
                forall|i: int| 0 <= i < index ==> self@[i] == base@[i],
            decreases base@.len() - index,
        {
            if !bytes_equal(&self.names[index], &base.names[index]) {
                assert(self@[index as int] != base@[index as int]);
                return false;
            }
            index += 1;
        }
        assert(base@ =~= self@.subrange(0, base@.len() as int));
        true
    }

    /// The final component, where it names a file or directory.
    pub fn file_name(&self) -> (name: Option<&Vec<u8>>)
        ensures
            match name {
                Some(bytes) => file_name_of(self@) == Some(bytes@),
                None => file_name_of(self@) is None,
            },
    {
        if self.names.len() == 0 {
            return None;
        }
        let name = &self.names[self.names.len() - 1];
        assert(self@.last() == name@);
        if name.len() == 1 && (name[0] == 47 || name[0] == 46) {
            assert(name@ =~= root_name() || name@ =~= seq![46u8]);
            return None;
        }
        if name.len() == 2 && name[0] == 46 && name[1] == 46 {
            assert(name@ =~= seq![46u8, 46u8]);
            return None;
        }
        Some(name)
    }

    /// The bytes after the last dot of the file name, where that dot is not its
    /// first byte.
    pub fn extension(&self) -> (extension: Option<Vec<u8>>)
        ensures
            match extension {
                Some(bytes) => extension_of(self@) == Some(bytes@),
                None => extension_of(self@) is None,
            },
    {
        match self.file_name() {
            Some(name) => {
                let mut dot: usize = name.len();
                while dot > 0 && name[dot - 1] != 46
                    invariant
                        dot <= name@.len(),
                        forall|i: int| dot <= i < name@.len() ==> name@[i] != 46u8,
                    decreases dot,
                {
                    dot -= 1;
                }
                if dot < 2 {
                    assert(forall|d: int| 1 <= d ==> !last_dot_at(name@, d));
                    return None;
                }
                let mut bytes: Vec<u8> = Vec::new();
                let mut index: usize = dot;
                while index < name.len()
                    invariant
                        dot <= index <= name@.len(),
                        bytes@ == name@.subrange(dot as int, index as int),
                    decreases name@.len() - index,
                {
                    bytes.push(name[index]);
                    index += 1;
                    assert(bytes@ =~= name@.subrange(dot as int, index as int));
                }
                proof {
                    assert(last_dot_at(name@, dot - 1));
                    let chosen = choose|d: int| 1 <= d && last_dot_at(name@, d);
                    assert(chosen == dot - 1);
                    assert(bytes@ =~= name@.skip(dot as int));
                }
                Some(bytes)
            },
            None => None,
        }
    }

    /// This path without its final component; the root and the empty path have
    /// no parent.
    pub fn parent(&self) -> (parent: Option<MediaPath>)
        ensures
            path_of(parent) == parent_of(self@),
    {
        if self.names.len() == 0 {
            return None;
        }
        let last = &self.names[self.names.len() - 1];
        assert(self@.last() == last@);
        if last.len() == 1 && last[0] == 47 {
            assert(last@ =~= root_name());
            return None;
        }
        let mut names = names_copy(&self.names);
        let ghost all = names_of(names@);
        names.pop();
        assert(names_of(names@) =~= all.drop_last());
        Some(MediaPath { names })
    }
}

impl Key for MediaPath {
    fn same(&self, other: &MediaPath) -> (same: bool) {
        names_same(&self.names, &other.names)
    }
}

/// A copy of a list of paths.
pub fn paths_copy(paths: &Vec<MediaPath>) -> (copy: Vec<MediaPath>)
    ensures
        paths_of(copy@) == paths_of(paths@),
{
    let mut copy: Vec<MediaPath> = Vec::new();
    let mut index: usize = 0;
    while index < paths.len()
        invariant
            index <= paths@.len(),
            copy@.len() == index,
            forall|i: int| 0 <= i < index ==> (#[trigger] copy@[i])@ == paths@[i]@,
        decreases paths@.len() - index,
    {
        copy.push(paths[index].clone());
        index += 1;
    }
    assert(paths_of(copy@) =~= paths_of(paths@));
    copy
}

/// Whether a list holds a path.
pub fn has_path(paths: &Vec<MediaPath>, path: &MediaPath) -> (found: bool)
    ensures
        found == paths_of(paths@).contains(path@),
{
    let mut index: usize = 0;
    while index < paths.len()
        invariant
            index <= paths@.len(),
            forall|i: int| 0 <= i < index ==> (#[trigger] paths@[i])@ != path@,
        decreases paths@.len() - index,
    {
        if paths[index].same(path) {
            assert(paths_of(paths@)[index as int] == path@);
            return true;
        }
        index += 1;
    }
    assert forall|i: int| 0 <= i < paths_of(paths@).len() implies paths_of(paths@)[i] != path@ by {
        assert(paths@[i]@ != path@);
    }
    false
}

impl Clone for MediaPath {
    fn clone(&self) -> (copy: Self)
        ensures
            copy@ == self@,
    {
        MediaPath { names: names_copy(&self.names) }
    }
}

/// The extension of a path is what follows the last dot of its name; a dot in front of the
/// name starts none.
pub proof fn law_extension_follows_the_last_dot(
    directory: PathNames,
    stem: Seq<u8>,
    extension: Seq<u8>,
)
    requires
        stem.len() > 0,
        extension.len() > 0,
        forall|i: int| 0 <= i < extension.len() ==> #[trigger] extension[i] != 46u8,
    ensures
        extension_of(directory.push(stem.push(46u8) + extension)) == Some(extension),
{
    let name = stem.push(46u8) + extension;
    let dot = stem.len() as int;
    assert(name[dot] == 46u8);
    assert forall|i: int| dot < i < name.len() implies name[i] != 46u8 by {
        assert(name[i] == extension[i - dot - 1]);
    }
    assert(last_dot_at(name, dot));
    let found = choose|found: int| 1 <= found && last_dot_at(name, found);
    assert(last_dot_at(name, found));
    if found < dot {
        assert(name[dot] != 46u8);
    }
    assert(name.skip(dot + 1) =~= extension);
    assert(name.len() >= 3);
    assert(directory.push(name).last() == name);
}

/// A name without a dot behind its first byte has no extension.
pub proof fn law_names_without_dots_have_no_extension(directory: PathNames, name: Seq<u8>)
    requires
        forall|i: int| 1 <= i < name.len() ==> #[trigger] name[i] != 46u8,
    ensures
        extension_of(directory.push(name)) is None,
{
    assert(directory.push(name).last() == name);
}

/// The parent of a path below a directory is that directory, and a path lies within its
/// parent.
pub proof fn law_parent_holds_the_path(directory: PathNames, name: Seq<u8>)
    requires
        name != seq![47u8],
    ensures
        parent_of(directory.push(name)) == Some(directory),
        path_within(directory.push(name), directory),
        !path_within(directory, directory.push(name)),
        parent_of(Seq::<Seq<u8>>::empty()) is None,
        parent_of(directory.push(seq![47u8])) is None,
{
    let path = directory.push(name);
    assert(path.drop_last() =~= directory);
    assert(path.subrange(0, directory.len() as int) =~= directory);
    assert(directory.push(seq![47u8]).last() == seq![47u8]);
}

} // verus!
