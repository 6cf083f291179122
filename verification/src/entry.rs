//! The entries of a directory, as the browser lists them.

use vstd::hash_map::StringHashMap;
use vstd::hash_set::StringHashSet;
use vstd::prelude::*;

verus! {

/// What a path names.
#[derive(Clone, Copy, Debug, PartialEq, Eq, Structural)]
pub enum FileSystemEntryKind {
    Unspecified,
    File,
    Directory,
    Symlink,
    Other,
}

/// One row of the browser.
#[derive(Debug)]
pub struct ServerFileBrowserEntry {
    pub name: String,
    pub path: String,
    pub kind: FileSystemEntryKind,
    pub size_bytes: Option<u64>,
    pub modified_epoch_millis: Option<u64>,
    /// How far the row is indented; zero for what lies directly in the current directory.
    pub depth: usize,
}

/// An entry with its strings taken as sequences of characters.
pub struct EntryView {
    pub name: Seq<char>,
    pub path: Seq<char>,
    pub kind: FileSystemEntryKind,
    pub size_bytes: Option<u64>,
    pub modified_epoch_millis: Option<u64>,
    pub depth: nat,
}

impl View for ServerFileBrowserEntry {
    type V = EntryView;

    open spec fn view(&self) -> EntryView {
        EntryView {
            name: self.name@,
            path: self.path@,
            kind: self.kind,
            size_bytes: self.size_bytes,
            modified_epoch_millis: self.modified_epoch_millis,
            depth: self.depth as nat,
        }
    }
}

impl Clone for ServerFileBrowserEntry {
    fn clone(&self) -> (entry: Self)
        ensures
            entry == *self,
    {
        ServerFileBrowserEntry {
            name: self.name.clone(),
            path: self.path.clone(),
            kind: self.kind,
            size_bytes: self.size_bytes,
            modified_epoch_millis: self.modified_epoch_millis,
            depth: self.depth,
        }
    }
}

/// The entry `e`, indented to `depth`.
pub open spec fn at_depth(e: ServerFileBrowserEntry, depth: usize) -> ServerFileBrowserEntry {
    ServerFileBrowserEntry { depth, ..e }
}

/// `entries`, indented to `depth`.
pub open spec fn all_at_depth(
    entries: Seq<ServerFileBrowserEntry>,
    depth: usize,
) -> Seq<ServerFileBrowserEntry> {
    entries.map_values(|e: ServerFileBrowserEntry| at_depth(e, depth))
}

/// Indents every entry to `depth`.
pub fn entries_with_depth(entries: Vec<ServerFileBrowserEntry>, depth: usize) -> (indented: Vec<
    ServerFileBrowserEntry,
>)
    ensures
        indented@ == all_at_depth(entries@, depth),
{
    let mut indented: Vec<ServerFileBrowserEntry> = entries;
    let mut i: usize = 0;
    while i < indented.len()
        invariant
            i <= indented@.len() == entries@.len(),
            forall|j: int| 0 <= j < i ==> indented@[j] == at_depth(#[trigger] entries@[j], depth),
            forall|j: int| i <= j < entries@.len() ==> indented@[j] == #[trigger] entries@[j],
        decreases indented@.len() - i,
    {
        indented[i].depth = depth;
        i = i + 1;
    }
    assert(indented@ =~= all_at_depth(entries@, depth));
    indented
}

/// A set of directories, by path.
pub struct DirectorySet {
    paths: StringHashSet,
}

impl View for DirectorySet {
    type V = Set<Seq<char>>;

    closed spec fn view(&self) -> Set<Seq<char>> {
        self.paths@
    }
}

impl DirectorySet {
    /// The empty set.
    pub fn new() -> (set: Self)
        ensures
            set@ == Set::<Seq<char>>::empty(),
    {
        DirectorySet { paths: StringHashSet::new() }
    }

    /// Whether `path` is in the set.
    pub fn contains(&self, path: &str) -> (found: bool)
        ensures
            found == self@.contains(path@),
    {
        self.paths.contains(path)
    }

    /// Puts `path` into the set.
    pub fn insert(&mut self, path: String)
        ensures
            final(self)@ == old(self)@.insert(path@),
    {
        self.paths.insert(path);
    }

    /// Takes `path` out of the set, and says whether it was there.
    pub fn remove(&mut self, path: &str) -> (found: bool)
        ensures
            final(self)@ == old(self)@.remove(path@),
            found == old(self)@.contains(path@),
    {
        self.paths.remove(path)
    }

    /// Takes every path out of the set.
    pub fn clear(&mut self)
        ensures
            final(self)@ == Set::<Seq<char>>::empty(),
    {
        self.paths.clear();
    }
}

/// The entries of the directories that have been listed, by the path of the directory.
pub struct DirectoryListings {
    listings: StringHashMap<Vec<ServerFileBrowserEntry>>,
}

impl View for DirectoryListings {
    type V = Map<Seq<char>, Seq<ServerFileBrowserEntry>>;

    closed spec fn view(&self) -> Map<Seq<char>, Seq<ServerFileBrowserEntry>> {
        self.listings@.map_values(|entries: Vec<ServerFileBrowserEntry>| entries@)
    }
}

impl DirectoryListings {
    /// No listing.
    pub fn new() -> (listings: Self)
        ensures
            listings@ == Map::<Seq<char>, Seq<ServerFileBrowserEntry>>::empty(),
    {
        let listings = DirectoryListings { listings: StringHashMap::new() };
        assert(listings@ =~= Map::<Seq<char>, Seq<ServerFileBrowserEntry>>::empty());
        listings
    }

    /// Whether the directory `path` has been listed.
    pub fn contains_key(&self, path: &str) -> (found: bool)
        ensures
            found == self@.contains_key(path@),
    {
        self.listings.contains_key(path)
    }

    /// How many directories have been listed.
    pub fn len(&self) -> (n: usize)
        ensures
            n == self@.len(),
    {
        assert(self@.dom() =~= self.listings@.dom());
        self.listings.len()
    }

    /// The entries of the directory `path`, if it has been listed.
    pub fn get(&self, path: &str) -> (entries: Option<&Vec<ServerFileBrowserEntry>>)
        ensures
            match entries {
                Some(e) => self@.contains_key(path@) && self@[path@] == e@,
                None => !self@.contains_key(path@),
            },
    {
        self.listings.get(path)
    }

    /// Keeps `entries` as the entries of the directory `path`, in place of earlier ones.
    pub fn insert(&mut self, path: String, entries: Vec<ServerFileBrowserEntry>)
        ensures
            final(self)@ == old(self)@.insert(path@, entries@),
    {
        self.listings.insert(path, entries);
        assert(self@ =~= old(self)@.insert(path@, entries@));
    }

    /// Forgets the entries of the directory `path`.
    pub fn remove(&mut self, path: &str)
        ensures
            final(self)@ == old(self)@.remove(path@),
    {
        self.listings.remove(path);
        assert(self@ =~= old(self)@.remove(path@));
    }

    /// Forgets every listing.
    pub fn clear(&mut self)
        ensures
            final(self)@ == Map::<Seq<char>, Seq<ServerFileBrowserEntry>>::empty(),
    {
        self.listings.clear();
        assert(self@ =~= Map::<Seq<char>, Seq<ServerFileBrowserEntry>>::empty());
    }
}

/// Indenting changes the depth of each entry and nothing else.
pub proof fn indenting_changes_just_the_depth(
    entries: Seq<ServerFileBrowserEntry>,
    depth: usize,
)
    ensures
        all_at_depth(entries, depth).len() == entries.len(),
        forall|i: int|
            #![trigger all_at_depth(entries, depth)[i]]
            0 <= i < entries.len() ==> {
                let indented = all_at_depth(entries, depth)[i];
                &&& indented.depth == depth
                &&& indented.name == entries[i].name
                &&& indented.path == entries[i].path
                &&& indented.kind == entries[i].kind
                &&& indented.size_bytes == entries[i].size_bytes
                &&& indented.modified_epoch_millis == entries[i].modified_epoch_millis
            },
{
}

/// Taking an entry by its characters keeps it.
pub proof fn entries_are_taken_whole(entry: ServerFileBrowserEntry)
    ensures
        entry@.name == entry.name@,
        entry@.path == entry.path@,
        entry@.kind == entry.kind,
        entry@.size_bytes == entry.size_bytes,
        entry@.modified_epoch_millis == entry.modified_epoch_millis,
        entry@.depth == entry.depth,
{
}

} // verus!
