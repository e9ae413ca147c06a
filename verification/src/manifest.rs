//! The manifest: an ordered list of pinned source repositories.

use vstd::prelude::*;
use crate::text::same_text;

verus! {

/// The mathematical value of a [`ManifestEntry`].
pub struct EntryView {
    pub url: Seq<char>,
    pub rev: Seq<char>,
    pub src_directory: Seq<char>,
    pub dest_directory: Option<Seq<char>>,
}

impl EntryView {
    /// The destination subpath: the declared one, else the source subpath.
    pub open spec fn dest(self) -> Seq<char> {
        match self.dest_directory {
            Some(d) => d,
            None => self.src_directory,
        }
    }

    /// Whether two entries agree on source subpath, URL and revision.
    pub open spec fn same_source(self, other: EntryView) -> bool {
        self.src_directory == other.src_directory && self.url == other.url && self.rev
            == other.rev
    }
}

/// One source repository, pinned to a revision, and the subtree of it that
/// is deployed.
#[derive(Clone, Debug, PartialEq, Eq)]
pub struct ManifestEntry {
    /// The git repository URL
    pub url: String,
    /// The revision to check out
    pub rev: String,
    /// The path in the repository where the protobufs are located
    pub src_directory: String,
    /// The path in the target project where protobufs are copied to. When
    /// absent, it is the same as `src_directory`.
    pub dest_directory: Option<String>,
}

impl View for ManifestEntry {
    type V = EntryView;

    open spec fn view(&self) -> EntryView {
        EntryView {
            url: self.url@,
            rev: self.rev@,
            src_directory: self.src_directory@,
            dest_directory: match self.dest_directory {
                Some(d) => Some(d@),
                None => None,
            },
        }
    }
}

impl ManifestEntry {
    /// An entry of these four fields.
    pub fn new(
        url: String,
        rev: String,
        src_directory: String,
        dest_directory: Option<String>,
    ) -> (entry: Self)
        ensures
            entry.url == url,
            entry.rev == rev,
            entry.src_directory == src_directory,
            entry.dest_directory == dest_directory,
            entry@ == (EntryView {
                url: url@,
                rev: rev@,
                src_directory: src_directory@,
                dest_directory: match dest_directory {
                    Some(d) => Some(d@),
                    None => None,
                },
            }),
    {
        Self { url, rev, src_directory, dest_directory }
    }

    /// The destination subpath: the declared one, else the source subpath.
    pub fn get_dest_directory(&self) -> (dest: &str)
        ensures
            dest@ == self@.dest(),
    {
        match &self.dest_directory {
            Some(d) => d.as_str(),
            None => self.src_directory.as_str(),
        }
    }
}

/// The entries, in the order in which they are synchronised.
#[derive(Clone, Debug, PartialEq, Eq)]
pub struct Manifest {
    /// A list of manifest entries declaring what protobufs to download
    pub entries: Vec<ManifestEntry>,
}

impl View for Manifest {
    type V = Seq<EntryView>;

    open spec fn view(&self) -> Seq<EntryView> {
        self.entries@.map_values(|e: ManifestEntry| e@)
    }
}

/// The index of the first entry whose destination subpath is `path`, if any.
pub open spec fn first_with_dest(entries: Seq<EntryView>, path: Seq<char>) -> Option<int>
    decreases entries.len(),
{
    if entries.len() == 0 {
        None
    } else {
        match first_with_dest(entries.drop_last(), path) {
            Some(i) => Some(i),
            None => if entries.last().dest() == path {
                Some(entries.len() - 1)
            } else {
                None
            },
        }
    }
}

/// The index of the first entry that agrees with `wanted` on source subpath,
/// URL and revision, if any.
pub open spec fn first_same_source(entries: Seq<EntryView>, wanted: EntryView) -> Option<int>
    decreases entries.len(),
{
    if entries.len() == 0 {
        None
    } else {
        match first_same_source(entries.drop_last(), wanted) {
            Some(i) => Some(i),
            None => if entries.last().same_source(wanted) {
                Some(entries.len() - 1)
            } else {
                None
            },
        }
    }
}

/// The index of the entry that a removal by destination `path` takes out:
/// the first entry that shares source subpath, URL and revision with the
/// first entry deployed to `path`.
pub open spec fn removal_index(entries: Seq<EntryView>, path: Seq<char>) -> Option<int> {
    match first_with_dest(entries, path) {
        Some(i) => first_same_source(entries, entries[i]),
        None => None,
    }
}

/// Whether some entry is fetched from `url`.
pub open spec fn has_url(entries: Seq<EntryView>, url: Seq<char>) -> bool {
    exists|i: int| 0 <= i < entries.len() && #[trigger] entries[i].url == url
}

/// What `first_with_dest` finds: the least index of an entry deployed to
/// `path`, and nothing exactly when there is no such entry.
pub proof fn lemma_first_with_dest(entries: Seq<EntryView>, path: Seq<char>)
    ensures
        match first_with_dest(entries, path) {
            Some(i) => 0 <= i < entries.len() && entries[i].dest() == path && forall|j: int|
                0 <= j < i ==> (#[trigger] entries[j]).dest() != path,
            None => forall|j: int|
                0 <= j < entries.len() ==> (#[trigger] entries[j]).dest() != path,
        },
    decreases entries.len(),
{
    if entries.len() > 0 {
        let front = entries.drop_last();
        lemma_first_with_dest(front, path);
        assert(forall|j: int| 0 <= j < front.len() ==> front[j] == entries[j]);
    }
}

/// What `first_same_source` finds: the least index of an entry that agrees
/// with `wanted`, and nothing exactly when there is no such entry.
pub proof fn lemma_first_same_source(entries: Seq<EntryView>, wanted: EntryView)
    ensures
        match first_same_source(entries, wanted) {
            Some(i) => 0 <= i < entries.len() && entries[i].same_source(wanted) && forall|j: int|
                0 <= j < i ==> !(#[trigger] entries[j]).same_source(wanted),
            None => forall|j: int|
                0 <= j < entries.len() ==> !(#[trigger] entries[j]).same_source(wanted),
        },
    decreases entries.len(),
{
    if entries.len() > 0 {
        let front = entries.drop_last();
        lemma_first_same_source(front, wanted);
        assert(forall|j: int| 0 <= j < front.len() ==> front[j] == entries[j]);
    }
}

impl Default for Manifest {
    /// The empty manifest.
    fn default() -> (manifest: Self)
        ensures
            manifest@ == Seq::<EntryView>::empty(),
    {
        Manifest::empty()
    }
}

impl Manifest {
    /// The empty manifest, which also stands for a manifest file that does
    /// not exist.
    pub fn empty() -> (manifest: Self)
        ensures
            manifest@ == Seq::<EntryView>::empty(),
    {
        let manifest = Manifest { entries: Vec::new() };
        assert(manifest@ =~= Seq::<EntryView>::empty());
        manifest
    }

    /// Adds an entry at the end of the manifest.
    pub fn add_entry(&mut self, entry: ManifestEntry)
        ensures
            final(self)@ == old(self)@.push(entry@),
    {
        self.entries.push(entry);
        assert(self@ =~= old(self)@.push(entry@));
    }

    /// Whether some entry is fetched from `url`.
    pub fn contains_url(&self, url: &str) -> (found: bool)
        ensures
            found == has_url(self@, url@),
    {
        let mut i: usize = 0;
        while i < self.entries.len()
            invariant
                i <= self.entries.len(),
                forall|j: int| 0 <= j < i ==> (#[trigger] self@[j]).url != url@,
            decreases self.entries.len() - i,
        {
            if same_text(self.entries[i].url.as_str(), url) {
                assert(self@[i as int].url == url@);
                return true;
            }
            i += 1;
        }
        false
    }

    /// Adds `entry` unless an entry with its URL is already there; returns
    /// whether it was added.
    pub fn add_unique(&mut self, entry: ManifestEntry) -> (added: bool)
        ensures
            added == !has_url(old(self)@, entry@.url),
            added ==> final(self)@ == old(self)@.push(entry@),
            !added ==> final(self)@ == old(self)@,
    {
        if self.contains_url(entry.url.as_str()) {
            false
        } else {
            self.add_entry(entry);
            true
        }
    }

    /// The index of the first entry whose destination subpath is `path`.
    pub fn position_by_dest(&self, path: &str) -> (found: Option<usize>)
        ensures
            match found {
                Some(i) => first_with_dest(self@, path@) == Some(i as int),
                None => first_with_dest(self@, path@).is_none(),
            },
    {
        let mut i: usize = 0;
        while i < self.entries.len()
            invariant
                i <= self.entries.len(),
                forall|j: int| 0 <= j < i ==> (#[trigger] self@[j]).dest() != path@,
            decreases self.entries.len() - i,
        {
            if same_text(self.entries[i].get_dest_directory(), path) {
                proof {
                    assert(self@[i as int].dest() == path@);
                    lemma_first_with_dest(self@, path@);
                }
                return Some(i);
            }
            i += 1;
        }
        proof {
            lemma_first_with_dest(self@, path@);
        }
        None
    }

    /// The index of the first entry that agrees with the entry at `at` on
    /// source subpath, URL and revision.
    fn position_same_source(&self, at: usize) -> (found: usize)
        requires
            at < self@.len(),
        ensures
            found <= at,
            first_same_source(self@, self@[at as int]) == Some(found as int),
    {
        let wanted = &self.entries[at];
        let mut k: usize = 0;
        while k < at
            invariant
                k <= at < self.entries.len(),
                *wanted == self.entries@[at as int],
                forall|j: int| 0 <= j < k ==> !(#[trigger] self@[j]).same_source(self@[at as int]),
            decreases at - k,
        {
            let e = &self.entries[k];
            if e.src_directory == wanted.src_directory && e.url == wanted.url && e.rev
                == wanted.rev {
                proof {
                    assert(self@[k as int].same_source(self@[at as int]));
                    lemma_first_same_source(self@, self@[at as int]);
                }
                return k;
            }
            k += 1;
        }
        proof {
            assert(self@[at as int].same_source(self@[at as int]));
            lemma_first_same_source(self@, self@[at as int]);
        }
        at
    }

    /// Removes the entry that `removal_index` selects for `path` and returns
    /// it; leaves the manifest as it is where no entry is deployed to `path`.
    pub fn remove_by_dest(&mut self, path: &str) -> (removed: Option<ManifestEntry>)
        ensures
            match removal_index(old(self)@, path@) {
                Some(i) => 0 <= i < old(self)@.len() && final(self)@ == old(self)@.remove(i)
                    && removed.is_some() && removed.unwrap()@ == old(self)@[i],
                None => removed.is_none() && final(self)@ == old(self)@,
            },
    {
        match self.position_by_dest(path) {
            None => None,
            Some(i) => {
                proof {
                    lemma_first_with_dest(self@, path@);
                }
                let k = self.position_same_source(i);
                let entry = self.entries.remove(k);
                assert(self@ =~= old(self)@.remove(k as int));
                Some(entry)
            },
        }
    }
}

} // verus!
