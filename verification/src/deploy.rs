//! Deploying a subtree of a working copy: the destination is replaced, never
//! merged, and every file below the source is copied to the same relative
//! place below the destination.

use vstd::prelude::*;
use crate::text::texts;

verus! {

/// What a directory holds: files and directories, each by its name.
#[derive(Debug, PartialEq, Eq)]
pub enum DirEntry {
    File(String),
    Directory(String, Vec<DirEntry>),
}

/// The mathematical value of a [`DirEntry`].
pub enum Listing {
    File(Seq<char>),
    Directory(Seq<char>, Seq<Listing>),
}

/// The value of one entry.
pub open spec fn listing_at(entry: DirEntry) -> Listing
    decreases entry, 0nat,
{
    match entry {
        DirEntry::File(name) => Listing::File(name@),
        DirEntry::Directory(name, children) => Listing::Directory(
            name@,
            listing_upto(children@, children@.len()),
        ),
    }
}

/// The values of the first `n` of `entries`.
pub open spec fn listing_upto(entries: Seq<DirEntry>, n: nat) -> Seq<Listing>
    decreases entries, n,
{
    if n == 0 || n > entries.len() {
        Seq::empty()
    } else {
        listing_upto(entries, (n - 1) as nat).push(listing_at(entries[n - 1]))
    }
}

/// The values of what a directory holds.
pub open spec fn listing(entries: Seq<DirEntry>) -> Seq<Listing> {
    listing_upto(entries, entries.len())
}

impl View for DirEntry {
    type V = Listing;

    open spec fn view(&self) -> Listing {
        listing_at(*self)
    }
}

/// `listing_upto` goes entry by entry.
pub proof fn lemma_listing_upto(entries: Seq<DirEntry>, n: nat)
    requires
        n <= entries.len(),
    ensures
        listing_upto(entries, n).len() == n,
        forall|k: int| 0 <= k < n ==> listing_upto(entries, n)[k] == listing_at(#[trigger] entries[k]),
    decreases n,
{
    if n > 0 {
        lemma_listing_upto(entries, (n - 1) as nat);
    }
}

/// The texts of a sequence of paths, each path a sequence of names.
pub open spec fn paths(list: Seq<Vec<String>>) -> Seq<Seq<Seq<char>>> {
    list.map_values(|p: Vec<String>| texts(p@))
}

/// The files at and below `entry`, each as its path from `prefix` on,
/// in listing order, depth first. Directories themselves are not listed.
pub open spec fn files_at(entry: Listing, prefix: Seq<Seq<char>>) -> Seq<Seq<Seq<char>>>
    decreases entry, 0nat,
{
    match entry {
        Listing::File(name) => seq![prefix.push(name)],
        Listing::Directory(name, children) => files_below(
            children,
            children.len(),
            prefix.push(name),
        ),
    }
}

/// The files at and below the first `n` of `entries`.
pub open spec fn files_below(entries: Seq<Listing>, n: nat, prefix: Seq<Seq<char>>) -> Seq<
    Seq<Seq<char>>,
>
    decreases entries, n,
{
    if n == 0 || n > entries.len() {
        Seq::empty()
    } else {
        files_below(entries, (n - 1) as nat, prefix) + files_at(entries[n - 1], prefix)
    }
}

/// The files in a directory that holds `entries`, and below it.
pub open spec fn files_in(entries: Seq<Listing>, prefix: Seq<Seq<char>>) -> Seq<Seq<Seq<char>>> {
    files_below(entries, entries.len(), prefix)
}

/// The path of `name` in the directory `parent`.
pub fn child_path(parent: &Vec<String>, name: &String) -> (path: Vec<String>)
    ensures
        texts(path@) == texts(parent@).push(name@),
{
    let mut path: Vec<String> = Vec::new();
    let mut i: usize = 0;
    while i < parent.len()
        invariant
            i <= parent.len(),
            path@.len() == i,
            forall|k: int| 0 <= k < i ==> path@[k]@ == parent@[k]@,
        decreases parent.len() - i,
    {
        path.push(parent[i].clone());
        i += 1;
    }
    path.push(name.clone());
    assert(texts(path@) =~= texts(parent@).push(name@));
    path
}

/// The files to copy from a source directory that holds `entries`, each as
/// the path, from the destination `dest` on, that it is copied to.
pub fn copy_dir(entries: &Vec<DirEntry>, dest: &Vec<String>) -> (copied: Vec<Vec<String>>)
    ensures
        paths(copied@) == files_in(listing(entries@), texts(dest@)),
    decreases entries,
{
    let mut copied: Vec<Vec<String>> = Vec::new();
    let mut i: usize = 0;
    let ghost all = listing(entries@);
    let ghost prefix = texts(dest@);
    proof {
        lemma_listing_upto(entries@, entries@.len());
        assert(paths(copied@) =~= Seq::empty());
    }
    while i < entries.len()
        invariant
            i <= entries.len(),
            all == listing(entries@),
            all.len() == entries@.len(),
            forall|k: int| 0 <= k < all.len() ==> all[k] == listing_at(#[trigger] entries@[k]),
            prefix == texts(dest@),
            paths(copied@) == files_below(all, i as nat, prefix),
        decreases entries.len() - i,
    {
        let ghost before = copied@;
        assert(files_below(all, (i + 1) as nat, prefix) == files_below(all, i as nat, prefix)
            + files_at(all[i as int], prefix));
        match &entries[i] {
            DirEntry::File(name) => {
                let target = child_path(dest, name);
                copied.push(target);
                assert(files_at(all[i as int], prefix) == seq![prefix.push(name@)]);
                assert(paths(copied@) =~= paths(before) + seq![prefix.push(name@)]);
            },
            DirEntry::Directory(name, children) => {
                let target = child_path(dest, name);
                let mut below = copy_dir(children, &target);
                let ghost found = below@;
                copied.append(&mut below);
                proof {
                    lemma_listing_upto(children@, children@.len());
                    assert(all[i as int] == Listing::Directory(name@, listing(children@)));
                    assert(files_at(all[i as int], prefix) == files_in(
                        listing(children@),
                        prefix.push(name@),
                    ));
                    assert(paths(copied@) =~= paths(before) + paths(found));
                }
            },
        }
        i += 1;
    }
    copied
}

/// One thing done to a destination directory.
#[derive(Clone, Copy, Debug, PartialEq, Eq, Structural)]
pub enum DeployAction {
    /// Delete the destination and all below it.
    RemoveDestination,
    /// Create the destination, with the directories above it.
    CreateDestination,
    /// Write the marker file that hides the destination from an enclosing
    /// repository.
    WriteIgnoreMarker,
    /// Copy the files of the source subtree.
    CopyFiles,
}

/// What a deploy does, in order: an existing destination is deleted before
/// it is created anew, so that nothing of an earlier deploy is left; the
/// marker is written where it is asked for; the files are copied last.
pub open spec fn deploy_sequence(exists: bool, ignore: bool) -> Seq<DeployAction> {
    (if exists {
        seq![DeployAction::RemoveDestination]
    } else {
        Seq::empty()
    }) + seq![DeployAction::CreateDestination] + (if ignore {
        seq![DeployAction::WriteIgnoreMarker]
    } else {
        Seq::empty()
    }) + seq![DeployAction::CopyFiles]
}

/// The actions of one deploy, given whether the destination exists and
/// whether it is to be marked.
pub fn deploy_plan(exists: bool, ignore: bool) -> (actions: Vec<DeployAction>)
    ensures
        actions@ == deploy_sequence(exists, ignore),
{
    let mut actions: Vec<DeployAction> = Vec::new();
    if exists {
        actions.push(DeployAction::RemoveDestination);
    }
    actions.push(DeployAction::CreateDestination);
    if ignore {
        actions.push(DeployAction::WriteIgnoreMarker);
    }
    actions.push(DeployAction::CopyFiles);
    assert(actions@ =~= deploy_sequence(exists, ignore));
    actions
}

/// The function that puts `prefix` before a path.
pub open spec fn under(prefix: Seq<Seq<char>>) -> spec_fn(Seq<Seq<char>>) -> Seq<Seq<char>> {
    |path: Seq<Seq<char>>| prefix + path
}

/// Mirroring, for one entry: see `lemma_copy_mirrors_source`.
pub proof fn lemma_entry_mirrors_source(entry: Listing, prefix: Seq<Seq<char>>)
    ensures
        files_at(entry, prefix) == files_at(entry, Seq::empty()).map_values(under(prefix)),
    decreases entry, 0nat,
{
    let none = Seq::<Seq<char>>::empty();
    match entry {
        Listing::File(name) => {
            assert(prefix.push(name) =~= prefix + none.push(name));
            assert(files_at(entry, prefix) =~= files_at(entry, none).map_values(under(prefix)));
        },
        Listing::Directory(name, children) => {
            let n = children.len();
            let inner = files_below(children, n, none);
            lemma_copy_mirrors_source(children, n, prefix.push(name));
            lemma_copy_mirrors_source(children, n, none.push(name));
            let there = inner.map_values(under(prefix.push(name)));
            let here = inner.map_values(under(none.push(name))).map_values(under(prefix));
            assert(there.len() == here.len());
            assert forall|k: int| 0 <= k < there.len() implies there[k] == here[k] by {
                assert(prefix.push(name) + inner[k] =~= prefix + (none.push(name) + inner[k]));
            }
            assert(there =~= here);
        },
    }
}

/// Mirroring: the paths that files are copied to are the paths of the files
/// below the source, each put below the destination, in the same order. So
/// the destination, which is empty when the copying starts, ends up with the
/// source's files at the source's relative places, and with no others.
pub proof fn lemma_copy_mirrors_source(entries: Seq<Listing>, n: nat, prefix: Seq<Seq<char>>)
    ensures
        files_below(entries, n, prefix) == files_below(entries, n, Seq::empty()).map_values(
            under(prefix),
        ),
    decreases entries, n,
{
    let none = Seq::<Seq<char>>::empty();
    if n == 0 || n > entries.len() {
        assert(files_below(entries, n, prefix) =~= files_below(entries, n, none).map_values(
            under(prefix),
        ));
    } else {
        lemma_copy_mirrors_source(entries, (n - 1) as nat, prefix);
        lemma_entry_mirrors_source(entries[n - 1], prefix);
        let front = files_below(entries, (n - 1) as nat, none);
        let back = files_at(entries[n - 1], none);
        assert((front + back).map_values(under(prefix)) =~= front.map_values(under(prefix))
            + back.map_values(under(prefix)));
    }
}

} // verus!
