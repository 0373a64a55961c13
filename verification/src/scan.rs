//! The scan of one directory: its files are counted, its subdirectories are
//! set aside as further work.

use crate::channel::dispatch;
use crate::stats::{lemma_total_concat, Stats, Tally};
use crossbeam::channel::Sender;
use vstd::prelude::*;

verus! {

/// One child of a directory, as its listing classified it.
#[derive(Clone, Debug)]
pub enum Entry {
    /// A regular file, with its length where that could be read.
    File { path: String, size: Option<u64> },
    /// A subdirectory, to be scanned later.
    Directory { path: String },
    /// Anything else; neither counted nor followed.
    Other,
}

/// What one entry adds to the total of its directory: a measured file counts
/// once with its length, everything else counts nothing.
pub open spec fn entry_tally(e: Entry) -> Tally {
    match e {
        Entry::File { size: Some(n), .. } => Tally { bytes: n as int, items: 1 },
        _ => Tally::zero(),
    }
}

/// The total of the files that stand directly in a listing.
pub open spec fn listing_tally(entries: Seq<Entry>) -> Tally {
    Tally::total(entries.map_values(|e: Entry| entry_tally(e)))
}

/// The paths of a listing's subdirectories, in listing order.
pub open spec fn pending_dirs(entries: Seq<Entry>) -> Seq<Seq<char>>
    decreases entries.len(),
{
    if entries.len() == 0 {
        Seq::empty()
    } else {
        let rest = pending_dirs(entries.drop_last());
        match entries.last() {
            Entry::Directory { path } => rest.push(path@),
            _ => rest,
        }
    }
}

/// The paths of a listing's files whose length could not be read, in
/// listing order.
pub open spec fn unmeasured_files(entries: Seq<Entry>) -> Seq<Seq<char>>
    decreases entries.len(),
{
    if entries.len() == 0 {
        Seq::empty()
    } else {
        let rest = unmeasured_files(entries.drop_last());
        match entries.last() {
            Entry::File { path, size: None } => rest.push(path@),
            _ => rest,
        }
    }
}

/// The character sequences of a sequence of strings.
pub open spec fn texts(names: Seq<String>) -> Seq<Seq<char>> {
    names.map_values(|s: String| s@)
}

/// The outcome of scanning one directory.
#[derive(Clone, Debug)]
pub struct Scan {
    /// The total of the files directly inside.
    pub stats: Stats,
    /// The subdirectories found, not yet scanned.
    pub pending: Vec<String>,
    /// The files that were skipped because their length could not be read.
    pub skipped: Vec<String>,
}

impl Scan {
    /// Whether this is the scan of the listing `entries`.
    pub open spec fn is_scan_of(self, entries: Seq<Entry>) -> bool {
        &&& self.stats@ == listing_tally(entries)
        &&& texts(self.pending@) == pending_dirs(entries)
        &&& texts(self.skipped@) == unmeasured_files(entries)
    }

    /// Whether this is the scan of a directory that held nothing to count,
    /// follow or report.
    pub open spec fn is_blank(self) -> bool {
        &&& self.stats@ == Tally::zero()
        &&& self.pending@.len() == 0
        &&& self.skipped@.len() == 0
    }

    /// The scan of a directory that could not be listed, or held nothing.
    pub fn blank() -> (r: Scan)
        ensures
            r.is_blank(),
    {
        Scan { stats: Stats::default(), pending: Vec::new(), skipped: Vec::new() }
    }
}

/// Scans a listing: counts each measured file once, sets each subdirectory
/// aside, notes each file without a length, ignores the rest. Returns `None`
/// exactly where the total is out of the range of `Stats`.
pub fn scan_entries(entries: &Vec<Entry>) -> (r: Option<Scan>)
    ensures
        r is Some <==> listing_tally(entries@).fits(),
        r is Some ==> r->Some_0.is_scan_of(entries@),
{
    let mut bytes: u128 = 0;
    let mut files: usize = 0;
    let mut pending: Vec<String> = Vec::new();
    let mut skipped: Vec<String> = Vec::new();
    let mut i: usize = 0;
    while i < entries.len()
        invariant
            i <= entries.len(),
            bytes as int == listing_tally(entries@.take(i as int)).bytes,
            files as int == listing_tally(entries@.take(i as int)).items,
            bytes <= i * 0xFFFF_FFFF_FFFF_FFFF,
            files <= i,
            texts(pending@) == pending_dirs(entries@.take(i as int)),
            texts(skipped@) == unmeasured_files(entries@.take(i as int)),
        decreases entries.len() - i,
    {
        proof {
            let next = entries@.take(i + 1);
            let tally_of = |e: Entry| entry_tally(e);
            assert(next.drop_last() =~= entries@.take(i as int));
            assert(next.map_values(tally_of).drop_last() =~= entries@.take(i as int).map_values(
                tally_of,
            ));
            assert(next.last() == entries@[i as int]);
        }
        let ghost before_pending = pending@;
        let ghost before_skipped = skipped@;
        match &entries[i] {
            Entry::File { path, size } => {
                match size {
                    Some(n) => {
                        bytes = bytes + *n as u128;
                        files = files + 1;
                    },
                    None => {
                        skipped.push(path.clone());
                        assert(texts(skipped@) =~= texts(before_skipped).push(path@));
                    },
                }
            },
            Entry::Directory { path } => {
                pending.push(path.clone());
                assert(texts(pending@) =~= texts(before_pending).push(path@));
            },
            Entry::Other => {},
        }
        i = i + 1;
    }
    proof {
        assert(entries@.take(i as int) =~= entries@);
    }
    if bytes <= u64::MAX as u128 && files <= i32::MAX as usize {
        Some(Scan { stats: Stats { size: bytes as u64, count: files as i32 }, pending, skipped })
    } else {
        None
    }
}

/// Why the walk of a directory was given up.
#[derive(Clone, Copy, Debug, PartialEq, Eq, Structural)]
pub enum WalkError {
    /// The directory's total is out of the range of `Stats`.
    Overflow,
    /// The queue refused a subdirectory: nobody is left to receive it.
    ChannelClosed,
}

/// Decides what a walk returns once the scan is made and the queue has taken
/// `sent` of its subdirectories: the scan where it took them all, else the
/// failure of the queue.
pub fn settle(scan: Scan, sent: usize) -> (r: Result<Scan, WalkError>)
    ensures
        sent == scan.pending.len() ==> r == Ok::<Scan, WalkError>(scan),
        sent != scan.pending.len() ==> r == Err::<Scan, WalkError>(WalkError::ChannelClosed),
{
    if sent == scan.pending.len() {
        Ok(scan)
    } else {
        Err(WalkError::ChannelClosed)
    }
}

/// Walks one directory: scans its listing and hands each subdirectory to the
/// queue. `listing` is `None` where the directory could not be listed: such
/// a directory counts nothing and is no error. The walk fails where the
/// total is out of range, and else only where there is a subdirectory and
/// the queue refuses one.
pub fn walk(listing: &Option<Vec<Entry>>, sender: &Sender<String>) -> (r: Result<Scan, WalkError>)
    ensures
        listing is None ==> r is Ok && r->Ok_0.is_blank(),
        listing is Some && !listing_tally(listing->Some_0@).fits() ==> r == Err::<
            Scan,
            WalkError,
        >(WalkError::Overflow),
        listing is Some && listing_tally(listing->Some_0@).fits() ==> {
            ||| r is Ok && r->Ok_0.is_scan_of(listing->Some_0@)
            ||| r == Err::<Scan, WalkError>(WalkError::ChannelClosed) && pending_dirs(
                listing->Some_0@,
            ).len() > 0
        },
{
    match listing {
        None => Ok(Scan::blank()),
        Some(entries) => match scan_entries(entries) {
            None => Err(WalkError::Overflow),
            Some(scan) => {
                let sent = dispatch(&scan.pending, sender);
                settle(scan, sent)
            },
        },
    }
}

/// A listing in two pieces counts what the pieces count together: no entry
/// is counted twice and none is lost, wherever the listing is cut.
pub proof fn lemma_listing_split(a: Seq<Entry>, b: Seq<Entry>)
    ensures
        listing_tally(a + b) == listing_tally(a).merge(listing_tally(b)),
{
    let tally_of = |e: Entry| entry_tally(e);
    assert((a + b).map_values(tally_of) =~= a.map_values(tally_of) + b.map_values(tally_of));
    lemma_total_concat(a.map_values(tally_of), b.map_values(tally_of));
}

/// A listing counts each of its entries at most once, and no negative
/// length: an empty listing counts nothing.
pub proof fn lemma_listing_bounds(entries: Seq<Entry>)
    ensures
        0 <= listing_tally(entries).items <= entries.len(),
        0 <= listing_tally(entries).bytes,
        entries.len() == 0 ==> listing_tally(entries) == Tally::zero(),
    decreases entries.len(),
{
    let tally_of = |e: Entry| entry_tally(e);
    if entries.len() > 0 {
        assert(entries.map_values(tally_of).drop_last() =~= entries.drop_last().map_values(
            tally_of,
        ));
        lemma_listing_bounds(entries.drop_last());
    }
}

} // verus!
