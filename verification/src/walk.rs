use vstd::prelude::*;

verus! {

/// What a directory entry turned out to be.
#[derive(Clone, Copy, PartialEq, Eq, Structural, Debug)]
pub enum EntryKind {
    /// A regular file: the walk visits it.
    File,
    /// A directory: the walk queues it for later traversal.
    Directory,
    /// Anything else (a symlink, a device): the walk skips it.
    Other,
}

/// The pending-directory queue of a breadth-first tree walk. Directories
/// are taken in the order they were discovered, so the walk proceeds level
/// by level without native recursion.
pub struct WalkQueue {
    pending: Vec<String>,
}

impl WalkQueue {
    /// The queued directory paths, front first.
    pub closed spec fn view(&self) -> Seq<Seq<char>> {
        self.pending@.map_values(|p: String| p@)
    }

    /// A fresh walk holds only the root directory.
    pub fn new(root: String) -> (q: WalkQueue)
        ensures
            q@ == seq![root@],
    {
        let mut pending: Vec<String> = Vec::new();
        pending.push(root);
        let q = WalkQueue { pending };
        proof {
            assert(q@ =~= seq![root@]);
        }
        q
    }

    /// Whether any directory is still waiting to be read.
    pub fn isEmpty(&self) -> (r: bool)
        ensures
            r == (self@.len() == 0),
    {
        self.pending.len() == 0
    }

    /// Takes the directory that has waited longest, `None` when the walk is
    /// done.
    pub fn nextDirectory(&mut self) -> (r: Option<String>)
        ensures
            old(self)@.len() == 0 ==> r is None && final(self)@ == old(self)@,
            old(self)@.len() > 0 ==> (match r {
                Some(p) => p@ == old(self)@[0] && final(self)@ == old(self)@.skip(1),
                None => false,
            }),
    {
        if self.pending.len() == 0 {
            return None;
        }
        let p = self.pending.remove(0);
        proof {
            assert(self@ =~= old(self)@.skip(1));
        }
        Some(p)
    }

    /// Handles one entry of the directory being read: a file is visited (the
    /// caller hashes it), a directory joins the back of the queue, anything
    /// else is skipped.
    pub fn processEntry(&mut self, kind: EntryKind, path: String) -> (visit: bool)
        ensures
            visit == (kind == EntryKind::File),
            kind == EntryKind::Directory ==> final(self)@ == old(self)@.push(path@),
            kind != EntryKind::Directory ==> final(self)@ == old(self)@,
    {
        match kind {
            EntryKind::File => true,
            EntryKind::Directory => {
                self.pending.push(path);
                proof {
                    assert(self@ =~= old(self)@.push(path@));
                }
                false
            },
            EntryKind::Other => false,
        }
    }
}

} // verus!
