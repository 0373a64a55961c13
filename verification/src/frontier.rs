//! Why a drained queue means a counted tree: a model of the traversal as a
//! frontier of directories that wait, and the proof that scanning them in
//! any order counts every directory of the tree exactly once.

use crate::scan::{listing_tally, Entry};
use crate::stats::{lemma_total_concat, lemma_total_remove, Tally};
use vstd::prelude::*;

verus! {

/// A directory tree: the listing of a directory and the trees under its
/// subdirectories. A directory that cannot be listed is a tree with an
/// empty listing and no children.
pub struct Dir {
    pub listing: Seq<Entry>,
    pub children: Seq<Dir>,
}

/// The total of the files directly in `dir` and in every directory below.
pub open spec fn tree_tally(dir: Dir) -> Tally
    decreases dir, dir.children.len() + 1,
{
    listing_tally(dir.listing).merge(children_tally(dir, dir.children.len()))
}

/// The total of the trees under the first `n` subdirectories of `dir`.
pub open spec fn children_tally(dir: Dir, n: nat) -> Tally
    decreases dir, n,
{
    if n == 0 || n > dir.children.len() {
        Tally::zero()
    } else {
        children_tally(dir, (n - 1) as nat).merge(tree_tally(dir.children[n - 1]))
    }
}

/// The total of a sequence of trees.
pub open spec fn forest_tally(dirs: Seq<Dir>) -> Tally {
    Tally::total(dirs.map_values(|d: Dir| tree_tally(d)))
}

/// A traversal under way: what has been counted, and the directories that
/// were found and wait in the queue.
pub struct Frontier {
    pub counted: Tally,
    pub queue: Seq<Dir>,
}

impl Frontier {
    /// The traversal once the root has been scanned: its files are counted
    /// and its subdirectories wait.
    pub open spec fn start(root: Dir) -> Frontier {
        Frontier { counted: listing_tally(root.listing), queue: root.children }
    }

    /// The traversal after some worker has received the directory at
    /// position `k` of the queue and scanned it: its files are counted, its
    /// subdirectories join the queue. With no such position, nothing
    /// happens.
    pub open spec fn scan(self, k: int) -> Frontier {
        if 0 <= k < self.queue.len() {
            Frontier {
                counted: self.counted.merge(listing_tally(self.queue[k].listing)),
                queue: self.queue.remove(k) + self.queue[k].children,
            }
        } else {
            self
        }
    }

    /// The traversal after the scans `picks`, first to last.
    pub open spec fn run(self, picks: Seq<int>) -> Frontier
        decreases picks.len(),
    {
        if picks.len() == 0 {
            self
        } else {
            self.run(picks.drop_last()).scan(picks.last())
        }
    }

    /// What is counted together with what the waiting directories hold.
    pub open spec fn whole(self) -> Tally {
        self.counted.merge(forest_tally(self.queue))
    }
}

/// The subdirectories of a directory hold what its first `n` hold, where
/// `n` is their number.
pub proof fn lemma_children_tally(dir: Dir, n: nat)
    requires
        n <= dir.children.len(),
    ensures
        children_tally(dir, n) == forest_tally(dir.children.take(n as int)),
    decreases n,
{
    let tally_of = |d: Dir| tree_tally(d);
    if n > 0 {
        lemma_children_tally(dir, (n - 1) as nat);
        assert(dir.children.take(n as int).map_values(tally_of).drop_last()
            =~= dir.children.take(n - 1).map_values(tally_of));
    }
}

/// A tree holds what its root lists and what the trees below hold.
pub proof fn lemma_tree_tally(dir: Dir)
    ensures
        tree_tally(dir) == listing_tally(dir.listing).merge(forest_tally(dir.children)),
{
    lemma_children_tally(dir, dir.children.len());
    assert(dir.children.take(dir.children.len() as int) =~= dir.children);
}

/// Once the root is scanned, what is counted and what waits make up the
/// tree.
pub proof fn lemma_start_whole(root: Dir)
    ensures
        Frontier::start(root).whole() == tree_tally(root),
{
    lemma_tree_tally(root);
}

/// Scanning a waiting directory neither loses nor repeats anything: what is
/// counted and what waits still make up the same total.
pub proof fn lemma_scan_conserves(f: Frontier, k: int)
    ensures
        f.scan(k).whole() == f.whole(),
{
    if 0 <= k < f.queue.len() {
        let tally_of = |d: Dir| tree_tally(d);
        let dir = f.queue[k];
        let all = f.queue.map_values(tally_of);
        lemma_total_remove(all, k);
        assert(all.remove(k) =~= f.queue.remove(k).map_values(tally_of));
        assert((f.queue.remove(k) + dir.children).map_values(tally_of) =~= f.queue.remove(
            k,
        ).map_values(tally_of) + dir.children.map_values(tally_of));
        lemma_total_concat(
            f.queue.remove(k).map_values(tally_of),
            dir.children.map_values(tally_of),
        );
        lemma_tree_tally(dir);
    }
}

/// No sequence of scans changes what is counted and what waits together.
pub proof fn lemma_run_conserves(f: Frontier, picks: Seq<int>)
    ensures
        f.run(picks).whole() == f.whole(),
    decreases picks.len(),
{
    if picks.len() > 0 {
        lemma_run_conserves(f, picks.drop_last());
        lemma_scan_conserves(f.run(picks.drop_last()), picks.last());
    }
}

/// When the queue has drained, the whole tree is counted, each directory
/// once: in whatever order the waiting directories were received, the
/// total is that of the tree.
pub proof fn lemma_drained_is_whole(root: Dir, picks: Seq<int>)
    requires
        Frontier::start(root).run(picks).queue.len() == 0,
    ensures
        Frontier::start(root).run(picks).counted == tree_tally(root),
{
    lemma_start_whole(root);
    lemma_run_conserves(Frontier::start(root), picks);
}

} // verus!
