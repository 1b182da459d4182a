//! The registry of the resources of a project.

use vstd::prelude::*;

use crate::bindings::joined_path;
use crate::bindings::path_eq;
use crate::bindings::path_join;
use crate::bindings::same_path;
use crate::text::str_eq;

verus! {

/// A build input: something with a stable name that knows where its output
/// belongs.
pub trait Resource: Eq + std::hash::Hash + Clone + std::fmt::Debug {
    /// The name that `identifier` returns.
    spec fn spec_identifier(&self) -> Seq<char>;

    /// The path that `output_path` returns.
    spec fn spec_output_path(&self) -> Seq<char>;

    /// A name to identify this resource by. It is the same at every call.
    fn identifier(&self) -> (name: String)
        ensures
            name@ == self.spec_identifier(),
    ;

    /// Where the generated file belongs, relative to the project root.
    fn output_path(&self) -> (path: String)
        ensures
            path@ == self.spec_output_path(),
    ;
}

/// The position of the first of `entries` whose resource is named `identifier`.
pub open spec fn position_by_identifier<R: Resource>(
    entries: Seq<(Seq<char>, R)>,
    identifier: Seq<char>,
) -> Option<int>
    decreases entries.len(),
{
    if entries.len() == 0 {
        None
    } else {
        match position_by_identifier(entries.drop_last(), identifier) {
            Some(i) => Some(i),
            None => if entries.last().1.spec_identifier() == identifier {
                Some(entries.len() - 1)
            } else {
                None
            },
        }
    }
}

/// The entry that `position_by_identifier` gives has the identifier, and
/// none before it has. Where it gives none, no entry has the identifier.
pub proof fn lemma_position_by_identifier<R: Resource>(
    entries: Seq<(Seq<char>, R)>,
    identifier: Seq<char>,
)
    ensures
        match position_by_identifier(entries, identifier) {
            Some(i) => 0 <= i < entries.len() && entries[i].1.spec_identifier() == identifier
                && forall|k: int|
                0 <= k < i ==> (#[trigger] entries[k]).1.spec_identifier() != identifier,
            None => forall|k: int|
                0 <= k < entries.len() ==> (#[trigger] entries[k]).1.spec_identifier()
                    != identifier,
        },
    decreases entries.len(),
{
    if entries.len() > 0 {
        let front = entries.drop_last();
        lemma_position_by_identifier(front, identifier);
        match position_by_identifier(front, identifier) {
            Some(i) => {
                assert(front[i] == entries[i]);
                assert forall|k: int| 0 <= k < i implies (
                #[trigger] entries[k]).1.spec_identifier() != identifier by {
                    assert(front[k] == entries[k]);
                }
            },
            None => {
                assert forall|k: int| 0 <= k < front.len() implies (
                #[trigger] entries[k]).1.spec_identifier() != identifier by {
                    assert(front[k] == entries[k]);
                }
            },
        }
    }
}

/// The position of the first of `entries` that is registered under `path`.
pub open spec fn position_by_path<R>(entries: Seq<(Seq<char>, R)>, path: Seq<char>) -> Option<int>
    decreases entries.len(),
{
    if entries.len() == 0 {
        None
    } else {
        match position_by_path(entries.drop_last(), path) {
            Some(i) => Some(i),
            None => if same_path(entries.last().0, path) {
                Some(entries.len() - 1)
            } else {
                None
            },
        }
    }
}

/// `entries` after `resource` was registered under `path`: it takes the place
/// of what was registered under that path before, or else comes last.
pub open spec fn with_entry<R>(entries: Seq<(Seq<char>, R)>, path: Seq<char>, resource: R) -> Seq<
    (Seq<char>, R),
> {
    match position_by_path(entries, path) {
        Some(i) => entries.update(i, (entries[i].0, resource)),
        None => entries.push((path, resource)),
    }
}

/// No entry is registered under the path of an earlier one.
pub open spec fn distinct_paths<R>(entries: Seq<(Seq<char>, R)>) -> bool {
    forall|i: int, j: int|
        0 <= i < j < entries.len() ==> !same_path(#[trigger] entries[i].0, #[trigger] entries[j].0)
}

/// One entry of a directory that was read from disk.
#[derive(Debug)]
pub enum DirectoryEntry<R> {
    /// A file, with the resource that the classifier made of it, if it
    /// made one.
    File { name: String, resource: Option<R> },
    /// A directory, with its own entries.
    Directory { name: String, entries: Vec<DirectoryEntry<R>> },
}

/// The path of the entry `name` of the directory `dir_path`: for the
/// directory `.` the name itself, else the name below the directory.
pub open spec fn entry_path(dir_path: Seq<char>, name: Seq<char>) -> Seq<char> {
    if same_path(dir_path, "."@) {
        name
    } else {
        joined_path(dir_path, name)
    }
}

/// `entries` after the directory `dir_path` with the entries `listing` was
/// registered: in the order of the listing, each file that has a resource
/// is registered under its path, and each directory is registered in turn
/// if `recurse` is set, and left out if not.
pub open spec fn registered<R>(
    entries: Seq<(Seq<char>, R)>,
    dir_path: Seq<char>,
    listing: Seq<DirectoryEntry<R>>,
    recurse: bool,
) -> Seq<(Seq<char>, R)>
    decreases listing,
{
    if listing.len() == 0 {
        entries
    } else {
        let before = registered(entries, dir_path, listing.drop_last(), recurse);
        match listing.last() {
            DirectoryEntry::File { name, resource } => match resource {
                Some(found) => with_entry(before, entry_path(dir_path, name@), found),
                None => before,
            },
            DirectoryEntry::Directory { name, entries: inner } => if recurse {
                registered(before, entry_path(dir_path, name@), inner@, recurse)
            } else {
                before
            },
        }
    }
}

/// Where no entry is registered under `path`, none has that path.
pub proof fn lemma_position_by_path_none<R>(entries: Seq<(Seq<char>, R)>, path: Seq<char>)
    requires
        position_by_path(entries, path) is None,
    ensures
        forall|i: int| 0 <= i < entries.len() ==> !same_path(#[trigger] entries[i].0, path),
    decreases entries.len(),
{
    if entries.len() > 0 {
        lemma_position_by_path_none(entries.drop_last(), path);
        assert forall|i: int| 0 <= i < entries.len() implies !same_path(
            #[trigger] entries[i].0,
            path,
        ) by {
            if i < entries.len() - 1 {
                assert(entries[i] == entries.drop_last()[i]);
            }
        }
    }
}

/// The position that `position_by_path` gives is that of an entry with the
/// path.
pub proof fn lemma_position_by_path_some<R>(entries: Seq<(Seq<char>, R)>, path: Seq<char>)
    requires
        position_by_path(entries, path) is Some,
    ensures
        0 <= position_by_path(entries, path)->0 < entries.len(),
        same_path(entries[position_by_path(entries, path)->0].0, path),
    decreases entries.len(),
{
    if position_by_path(entries.drop_last(), path) is Some {
        lemma_position_by_path_some(entries.drop_last(), path);
    }
}

/// Registering a resource keeps the paths distinct.
pub proof fn lemma_with_entry_distinct<R>(entries: Seq<(Seq<char>, R)>, path: Seq<char>, resource: R)
    requires
        distinct_paths(entries),
    ensures
        distinct_paths(with_entry(entries, path, resource)),
{
    let after = with_entry(entries, path, resource);
    match position_by_path(entries, path) {
        Some(at) => {
            lemma_position_by_path_some(entries, path);
            assert forall|i: int, j: int| 0 <= i < j < after.len() implies !same_path(
                #[trigger] after[i].0,
                #[trigger] after[j].0,
            ) by {
                assert(after[i].0 == entries[i].0);
                assert(after[j].0 == entries[j].0);
            }
        },
        None => {
            lemma_position_by_path_none(entries, path);
            assert forall|i: int, j: int| 0 <= i < j < after.len() implies !same_path(
                #[trigger] after[i].0,
                #[trigger] after[j].0,
            ) by {
                assert(after[i].0 == entries[i].0);
                if j < entries.len() {
                    assert(after[j].0 == entries[j].0);
                }
            }
        },
    }
}

/// Registering a directory keeps the paths distinct.
pub proof fn lemma_registered_distinct<R>(
    entries: Seq<(Seq<char>, R)>,
    dir_path: Seq<char>,
    listing: Seq<DirectoryEntry<R>>,
    recurse: bool,
)
    requires
        distinct_paths(entries),
    ensures
        distinct_paths(registered(entries, dir_path, listing, recurse)),
    decreases listing,
{
    if listing.len() > 0 {
        lemma_registered_distinct(entries, dir_path, listing.drop_last(), recurse);
        let before = registered(entries, dir_path, listing.drop_last(), recurse);
        match listing.last() {
            DirectoryEntry::File { name, resource } => match resource {
                Some(found) => {
                    lemma_with_entry_distinct(before, entry_path(dir_path, name@), found);
                },
                None => {},
            },
            DirectoryEntry::Directory { name, entries: inner } => {
                if recurse {
                    lemma_registered_distinct(
                        before,
                        entry_path(dir_path, name@),
                        inner@,
                        recurse,
                    );
                }
            },
        }
    }
}

/// The registered paths as texts, each with its resource.
pub open spec fn entries_of<R>(items: Seq<(String, R)>) -> Seq<(Seq<char>, R)> {
    Seq::new(items.len(), |i: int| (items[i].0@, items[i].1))
}

/// Holds all resources of a project, each under its path relative to the
/// project root.
pub struct ResourceManager<R: Resource> {
    project_root: String,
    registered_resources: Vec<(String, R)>,
}

impl<R: Resource> ResourceManager<R> {
    #[verifier::type_invariant]
    spec fn well_formed(self) -> bool {
        distinct_paths(self.entries())
    }

    /// The project root.
    pub closed spec fn root(self) -> Seq<char> {
        self.project_root@
    }

    /// The registered resources with their paths, in the order in which
    /// their paths were first registered.
    pub closed spec fn entries(self) -> Seq<(Seq<char>, R)> {
        entries_of(self.registered_resources@)
    }

    /// An empty registry for the project at `project_root`.
    pub fn new(project_root: String) -> (manager: ResourceManager<R>)
        ensures
            manager.root() == project_root@,
            manager.entries() == Seq::<(Seq<char>, R)>::empty(),
    {
        ResourceManager { project_root, registered_resources: Vec::new() }
    }

    /// The path of `path_fragment` below the project root.
    pub fn absolute_path(&self, path_fragment: &str) -> (path: String)
        ensures
            path@ == joined_path(self.root(), path_fragment@),
    {
        path_join(self.project_root.as_str(), path_fragment)
    }

    /// The first registered resource whose identifier is `identifier`.
    pub fn resource_by_identifier(&self, identifier: &str) -> (found: Option<&R>)
        ensures
            match position_by_identifier(self.entries(), identifier@) {
                Some(i) => found == Some(&self.entries()[i].1),
                None => found is None,
            },
    {
        let mut i: usize = 0;
        while i < self.registered_resources.len()
            invariant
                i <= self.registered_resources.len(),
                position_by_identifier(self.entries().take(i as int), identifier@) is None,
            decreases self.registered_resources.len() - i,
        {
            let name = self.registered_resources[i].1.identifier();
            proof {
                let upto = self.entries().take(i + 1);
                assert(upto.drop_last() == self.entries().take(i as int));
                assert(upto.last() == self.entries()[i as int]);
            }
            if str_eq(name.as_str(), identifier) {
                proof {
                    Self::lemma_position_prefix(self.entries(), identifier@, i + 1);
                }
                return Some(&self.registered_resources[i].1);
            }
            i += 1;
        }
        assert(self.entries().take(i as int) == self.entries());
        None
    }

    /// A copy of every registered path with its resource, in the order of
    /// `entries`. It is a value of its own: what is registered later does
    /// not show in it.
    pub fn all_registered_files(&self) -> (snapshot: Vec<(String, R)>)
        ensures
            snapshot@.len() == self.entries().len(),
            forall|i: int|
                0 <= i < snapshot@.len() ==> (#[trigger] snapshot@[i]).0@ == self.entries()[i].0
                    && cloned(self.entries()[i].1, snapshot@[i].1),
            distinct_paths(self.entries()),
    {
        proof {
            use_type_invariant(self);
        }
        let mut snapshot: Vec<(String, R)> = Vec::new();
        let mut i: usize = 0;
        while i < self.registered_resources.len()
            invariant
                i <= self.registered_resources.len(),
                snapshot@.len() == i,
                forall|j: int|
                    0 <= j < i ==> (#[trigger] snapshot@[j]).0@ == self.entries()[j].0 && cloned(
                        self.entries()[j].1,
                        snapshot@[j].1,
                    ),
            decreases self.registered_resources.len() - i,
        {
            let path = self.registered_resources[i].0.clone();
            let resource = self.registered_resources[i].1.clone();
            snapshot.push((path, resource));
            i += 1;
        }
        snapshot
    }

    /// The position of the entry registered under `path`.
    fn find_path(&self, path: &str) -> (found: Option<usize>)
        ensures
            match found {
                Some(i) => position_by_path(self.entries(), path@) == Some(i as int) && i
                    < self.entries().len(),
                None => position_by_path(self.entries(), path@) is None,
            },
    {
        let mut i: usize = 0;
        while i < self.registered_resources.len()
            invariant
                i <= self.registered_resources.len(),
                position_by_path(self.entries().take(i as int), path@) is None,
            decreases self.registered_resources.len() - i,
        {
            proof {
                let upto = self.entries().take(i + 1);
                assert(upto.drop_last() == self.entries().take(i as int));
                assert(upto.last() == self.entries()[i as int]);
            }
            if path_eq(self.registered_resources[i].0.as_str(), path) {
                proof {
                    Self::lemma_path_prefix(self.entries(), path@, i + 1);
                }
                return Some(i);
            }
            i += 1;
        }
        assert(self.entries().take(i as int) == self.entries());
        None
    }

    /// Registers `resource` under `path`.
    fn register(&mut self, path: String, resource: R)
        ensures
            final(self).root() == old(self).root(),
            final(self).entries() == with_entry(old(self).entries(), path@, resource),
    {
        proof {
            use_type_invariant(&*self);
            lemma_with_entry_distinct(self.entries(), path@, resource);
        }
        let ghost before = self.entries();
        let found = self.find_path(path.as_str());
        let mut items: Vec<(String, R)> = Vec::new();
        std::mem::swap(&mut self.registered_resources, &mut items);
        assert(entries_of(items@) == before);
        match found {
            Some(i) => {
                let (key, _) = items.remove(i);
                items.insert(i, (key, resource));
                assert(entries_of(items@) == before.update(
                    i as int,
                    (before[i as int].0, resource),
                ));
            },
            None => {
                items.push((path, resource));
                assert(entries_of(items@) == before.push((path@, resource)));
            },
        }
        assert(entries_of(items@) == with_entry(before, path@, resource));
        self.registered_resources = items;
    }

    /// The path of the entry `name` of the directory `dir_path`.
    fn path_of_entry(dir_path: &str, name: String) -> (path: String)
        ensures
            path@ == entry_path(dir_path@, name@),
    {
        if path_eq(dir_path, ".") {
            name
        } else {
            path_join(dir_path, name.as_str())
        }
    }

    /// Registers the files of the directory `dir_path`, relative to the
    /// project root, whose entries are `listing`. A file for which the
    /// classifier made no resource is passed over. The directories among the
    /// entries are registered in turn if `recurse` is set.
    pub fn register_all_files_in_directory(
        &mut self,
        dir_path: String,
        listing: Vec<DirectoryEntry<R>>,
        recurse: bool,
    )
        ensures
            final(self).root() == old(self).root(),
            final(self).entries() == registered(
                old(self).entries(),
                dir_path@,
                listing@,
                recurse,
            ),
            distinct_paths(final(self).entries()),
        decreases listing,
    {
        proof {
            use_type_invariant(&*self);
            lemma_registered_distinct(self.entries(), dir_path@, listing@, recurse);
        }
        let ghost start = self.entries();
        let ghost root = self.root();
        assert(listing@.take(0) == Seq::<DirectoryEntry<R>>::empty());
        for entry in it: listing
            invariant
                it.seq() == listing@,
                self.root() == root,
                self.entries() == registered(
                    start,
                    dir_path@,
                    listing@.take(it.index() as int),
                    recurse,
                ),
        {
            proof {
                let upto = listing@.take(it.index() + 1);
                assert(upto.drop_last() == listing@.take(it.index() as int));
                assert(upto.last() == entry);
            }
            match entry {
                DirectoryEntry::File { name, resource } => {
                    match resource {
                        Some(found) => {
                            let path = Self::path_of_entry(dir_path.as_str(), name);
                            self.register(path, found);
                        },
                        None => {},
                    }
                },
                DirectoryEntry::Directory { name, entries } => {
                    if recurse {
                        let path = Self::path_of_entry(dir_path.as_str(), name);
                        self.register_all_files_in_directory(path, entries, recurse);
                    }
                },
            }
        }
        assert(listing@.take(listing@.len() as int) == listing@);
    }

    /// A match within a prefix of the entries is the match within all of them.
    proof fn lemma_path_prefix(entries: Seq<(Seq<char>, R)>, path: Seq<char>, n: int)
        requires
            0 <= n <= entries.len(),
            position_by_path(entries.take(n), path) is Some,
        ensures
            position_by_path(entries, path) == position_by_path(entries.take(n), path),
        decreases entries.len(),
    {
        if n < entries.len() {
            assert(entries.drop_last().take(n) == entries.take(n));
            Self::lemma_path_prefix(entries.drop_last(), path, n);
        } else {
            assert(entries.take(n) == entries);
        }
    }

    /// A match within a prefix of the entries is the match within all of them.
    proof fn lemma_position_prefix(entries: Seq<(Seq<char>, R)>, identifier: Seq<char>, n: int)
        requires
            0 <= n <= entries.len(),
            position_by_identifier(entries.take(n), identifier) is Some,
        ensures
            position_by_identifier(entries, identifier) == position_by_identifier(
                entries.take(n),
                identifier,
            ),
        decreases entries.len(),
    {
        if n < entries.len() {
            assert(entries.drop_last().take(n) == entries.take(n));
            Self::lemma_position_prefix(entries.drop_last(), identifier, n);
        } else {
            assert(entries.take(n) == entries);
        }
    }
}

} // verus!
