use vstd::prelude::*;

use crate::matcher::string_views;

verus! {

/// What a path names on disk.
#[derive(Clone, Copy, PartialEq, Eq, Structural)]
pub enum EntryKind {
    File,
    Dir,
    Other,
}

/// A path with its kind.
pub struct Entry {
    pub path: String,
    pub kind: EntryKind,
}

/// Gathers the files to search under one root, depth first. Entries wait on
/// a stack whose top is its last element; each directory that comes to the
/// top is handed out to be listed, and its listing goes back on the stack.
pub struct PathCollector {
    pub found: Vec<String>,
    pub pending: Vec<Entry>,
}

/// An entry as plain values.
pub open spec fn entry_view(e: Entry) -> (Seq<char>, EntryKind) {
    (e.path@, e.kind)
}

/// The entries of a stack as plain values.
pub open spec fn entries_view(s: Seq<Entry>) -> Seq<(Seq<char>, EntryKind)> {
    s.map_values(|e: Entry| entry_view(e))
}

/// Takes entries off the top of `stack` up to the first directory: files
/// join `found`, other entries are dropped. Gives the new found list, the
/// rest of the stack and the directory, if one came up.
pub open spec fn settle(found: Seq<Seq<char>>, stack: Seq<(Seq<char>, EntryKind)>) -> (
    Seq<Seq<char>>,
    Seq<(Seq<char>, EntryKind)>,
    Option<Seq<char>>,
)
    decreases stack.len(),
{
    if stack.len() == 0 {
        (found, stack, None)
    } else {
        let top = stack.last();
        match top.1 {
            EntryKind::File => settle(found.push(top.0), stack.drop_last()),
            EntryKind::Dir => (found, stack.drop_last(), Some(top.0)),
            EntryKind::Other => settle(found, stack.drop_last()),
        }
    }
}


/// A directory tree as the file system shows it: each directory with its
/// entries in listing order.
pub enum Tree {
    File(Seq<char>),
    Dir(Seq<char>, Seq<Tree>),
    Other(Seq<char>),
}

/// The path and kind of a tree's root.
pub open spec fn label(t: Tree) -> (Seq<char>, EntryKind) {
    match t {
        Tree::File(p) => (p, EntryKind::File),
        Tree::Dir(p, _) => (p, EntryKind::Dir),
        Tree::Other(p) => (p, EntryKind::Other),
    }
}

/// The labels of a sequence of trees.
pub open spec fn labels(s: Seq<Tree>) -> Seq<(Seq<char>, EntryKind)> {
    s.map_values(|t: Tree| label(t))
}

/// The files of a tree, depth first, each directory's entries in listing
/// order.
pub open spec fn files_of(t: Tree) -> Seq<Seq<char>>
    decreases t, 0nat,
{
    match t {
        Tree::File(p) => seq![p],
        Tree::Dir(_, kids) => forest_files(kids, kids.len()),
        Tree::Other(_) => Seq::empty(),
    }
}

/// The files of the first `n` trees of `kids`, tree after tree.
pub open spec fn forest_files(kids: Seq<Tree>, n: nat) -> Seq<Seq<char>>
    decreases kids, n,
{
    if n == 0 || n > kids.len() {
        Seq::empty()
    } else {
        forest_files(kids, (n - 1) as nat) + files_of(kids[n - 1])
    }
}

/// The files still to come from a stack of trees, whose top is its last
/// element.
pub open spec fn stack_files(s: Seq<Tree>) -> Seq<Seq<char>>
    decreases s.len(),
{
    if s.len() == 0 {
        Seq::empty()
    } else {
        files_of(s.last()) + stack_files(s.drop_last())
    }
}

impl PathCollector {
    /// Starts at `root`. Without recursion, and for a root that is no
    /// directory, the root alone is the result; a directory root under
    /// recursion waits to be listed.
    pub fn new(root: String, kind: EntryKind, recursive: bool) -> (r: PathCollector)
        ensures
            recursive && kind == EntryKind::Dir ==> string_views(r.found@) == Seq::<Seq<char>>::empty()
                && entries_view(r.pending@) == seq![(root@, EntryKind::Dir)],
            !(recursive && kind == EntryKind::Dir) ==> string_views(r.found@) == seq![root@]
                && r.pending@.len() == 0,
    {
        let mut found: Vec<String> = Vec::new();
        let mut pending: Vec<Entry> = Vec::new();
        if recursive && kind == EntryKind::Dir {
            pending.push(Entry { path: root, kind });
            assert(entries_view(pending@) =~= seq![(root@, EntryKind::Dir)]);
            assert(string_views(found@) =~= Seq::<Seq<char>>::empty());
        } else {
            found.push(root);
            assert(string_views(found@) =~= seq![root@]);
        }
        PathCollector { found, pending }
    }

    /// The next directory to list, after the files above it on the stack
    /// have joined the result; `None` once nothing is left.
    pub fn next_dir(&mut self) -> (r: Option<String>)
        ensures
            ({
                let s = settle(string_views(old(self).found@), entries_view(old(self).pending@));
                &&& string_views(final(self).found@) == s.0
                &&& entries_view(final(self).pending@) == s.1
                &&& (r matches Some(p) ==> s.2 == Some(p@))
                &&& (r is None ==> s.2 is None)
            }),
    {
        let ghost goal = settle(string_views(self.found@), entries_view(self.pending@));
        loop
            invariant
                settle(string_views(self.found@), entries_view(self.pending@)) == goal,
                goal == settle(string_views(old(self).found@), entries_view(old(self).pending@)),
            decreases self.pending@.len(),
        {
            let ghost found0 = self.found@;
            let ghost stack0 = self.pending@;
            match self.pending.pop() {
                None => {
                    assert(entries_view(stack0) =~= Seq::<(Seq<char>, EntryKind)>::empty());
                    return None;
                },
                Some(e) => {
                    assert(entries_view(self.pending@) =~= entries_view(stack0).drop_last());
                    assert(entries_view(stack0).last() == entry_view(e));
                    match e.kind {
                        EntryKind::File => {
                            self.found.push(e.path);
                            assert(string_views(self.found@) =~= string_views(found0).push(e.path@));
                        },
                        EntryKind::Dir => {
                            assert(settle(string_views(found0), entries_view(stack0)) == (
                                string_views(found0),
                                entries_view(stack0).drop_last(),
                                Some(e.path@),
                            ));
                            return Some(e.path);
                        },
                        EntryKind::Other => {},
                    }
                },
            }
        }
    }

    /// Puts the listing of the directory last handed out on the stack, so
    /// that its entries come up in listing order.
    pub fn enter(&mut self, listing: Vec<Entry>)
        ensures
            final(self).found@ == old(self).found@,
            entries_view(final(self).pending@) == entries_view(old(self).pending@) + entries_view(
                listing@,
            ).reverse(),
    {
        let ghost stack0 = entries_view(self.pending@);
        let mut listing = listing;
        let ghost all = entries_view(listing@);
        while listing.len() > 0
            invariant
                all.len() >= listing@.len(),
                entries_view(listing@) == all.take(listing@.len() as int),
                entries_view(self.pending@) == stack0 + all.skip(listing@.len() as int).reverse(),
                self.found@ == old(self).found@,
            decreases listing@.len(),
        {
            let ghost len0 = listing@.len() as int;
            let ghost pend0 = entries_view(self.pending@);
            let ghost list0 = listing@;
            let e = listing.pop().unwrap();
            assert(list0 == listing@.push(e));
            assert(entries_view(list0)[len0 - 1] == entry_view(e));
            assert(all.take(len0)[len0 - 1] == all[len0 - 1]);
            assert(entries_view(listing@) =~= all.take(len0 - 1));
            self.pending.push(e);
            assert(all.skip(len0 - 1).reverse() =~= all.skip(len0).reverse().push(all[len0 - 1]));
            assert(entries_view(self.pending@) =~= pend0.push(entry_view(e)));
        }
        assert(all.skip(0) =~= all);
    }

    /// The files gathered so far, in the order they were found.
    pub fn finish(self) -> (r: Vec<String>)
        ensures
            r == self.found,
    {
        self.found
    }
}

} // verus!
