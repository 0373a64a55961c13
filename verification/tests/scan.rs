use crossbeam::channel::unbounded;
use treesize::channel::dispatch;
use treesize::scan::{scan_entries, settle, walk, Entry, Scan, WalkError};
use treesize::stats::Stats;

fn file(path: &str, size: u64) -> Entry {
    Entry::File { path: path.to_string(), size: Some(size) }
}

fn dir(path: &str) -> Entry {
    Entry::Directory { path: path.to_string() }
}

#[test]
fn empty_directory_counts_nothing() {
    let scan = scan_entries(&Vec::new()).unwrap();
    assert_eq!(scan.stats, Stats { size: 0, count: 0 });
    assert!(scan.pending.is_empty());
    assert!(scan.skipped.is_empty());
}

#[test]
fn files_are_counted_once_each() {
    let entries =
        vec![file("a", 10), file("b", 20), file("c", 30), file("d", 40), file("e", 50)];
    let scan = scan_entries(&entries).unwrap();
    assert_eq!(scan.stats, Stats { size: 150, count: 5 });
    assert!(scan.pending.is_empty());
}

#[test]
fn subdirectories_are_set_aside_in_order() {
    let entries = vec![dir("x/one"), file("x/f", 7), Entry::Other, dir("x/two")];
    let scan = scan_entries(&entries).unwrap();
    assert_eq!(scan.stats, Stats { size: 7, count: 1 });
    assert_eq!(scan.pending, vec!["x/one".to_string(), "x/two".to_string()]);
    assert!(scan.skipped.is_empty());
}

#[test]
fn unmeasured_file_is_skipped_and_noted() {
    let entries = vec![
        file("a", 10),
        Entry::File { path: "gone".to_string(), size: None },
        file("b", 5),
    ];
    let scan = scan_entries(&entries).unwrap();
    assert_eq!(scan.stats, Stats { size: 15, count: 2 });
    assert_eq!(scan.skipped, vec!["gone".to_string()]);
}

#[test]
fn scan_out_of_range_is_none() {
    let entries = vec![file("a", u64::MAX), file("b", 1)];
    assert!(scan_entries(&entries).is_none());
    let entries = vec![file("a", u64::MAX - 1), file("b", 1)];
    assert_eq!(scan_entries(&entries).unwrap().stats, Stats { size: u64::MAX, count: 2 });
}

#[test]
fn scan_in_two_pieces_counts_the_same() {
    let all = vec![file("a", 10), dir("d"), file("b", 20), file("c", 30)];
    let whole = scan_entries(&all).unwrap().stats;
    let front = scan_entries(&all[..2].to_vec()).unwrap().stats;
    let back = scan_entries(&all[2..].to_vec()).unwrap().stats;
    assert_eq!(Stats::sum(&vec![front, back]), Some(whole));
    assert_eq!(whole, Stats { size: 60, count: 3 });
}

#[test]
fn blank_scan_is_empty() {
    let scan = Scan::blank();
    assert_eq!(scan.stats, Stats { size: 0, count: 0 });
    assert!(scan.pending.is_empty());
    assert!(scan.skipped.is_empty());
}

#[test]
fn dispatch_sends_every_directory_in_order() {
    let (tx, rx) = unbounded::<String>();
    let pending = vec!["p".to_string(), "q".to_string(), "r".to_string()];
    assert_eq!(dispatch(&pending, &tx), 3);
    assert_eq!(rx.try_recv().unwrap(), "p");
    assert_eq!(rx.try_recv().unwrap(), "q");
    assert_eq!(rx.try_recv().unwrap(), "r");
    assert!(rx.try_recv().is_err());
}

#[test]
fn dispatch_stops_where_the_queue_is_closed() {
    let (tx, rx) = unbounded::<String>();
    drop(rx);
    assert_eq!(dispatch(&vec!["p".to_string(), "q".to_string()], &tx), 0);
    assert_eq!(dispatch(&Vec::new(), &tx), 0);
}

#[test]
fn settle_goes_by_the_number_sent() {
    let scan = scan_entries(&vec![dir("p"), dir("q"), file("f", 3)]).unwrap();
    let kept = settle(scan.clone(), 2).unwrap();
    assert_eq!(kept.stats, Stats { size: 3, count: 1 });
    assert_eq!(kept.pending, vec!["p".to_string(), "q".to_string()]);
    assert_eq!(settle(scan.clone(), 1).unwrap_err(), WalkError::ChannelClosed);
    assert_eq!(settle(scan, 0).unwrap_err(), WalkError::ChannelClosed);
}

#[test]
fn walk_counts_files_and_queues_subdirectories() {
    let (tx, rx) = unbounded::<String>();
    let listing = Some(vec![file("r/a", 10), dir("r/sub"), file("r/b", 20)]);
    let scan = walk(&listing, &tx).unwrap();
    assert_eq!(scan.stats, Stats { size: 30, count: 2 });
    assert_eq!(rx.try_recv().unwrap(), "r/sub");
    assert!(rx.try_recv().is_err());
}

#[test]
fn walk_of_unlistable_directory_counts_nothing() {
    let (tx, rx) = unbounded::<String>();
    let scan = walk(&None, &tx).unwrap();
    assert_eq!(scan.stats, Stats { size: 0, count: 0 });
    assert!(scan.pending.is_empty());
    assert!(rx.try_recv().is_err());
}

#[test]
fn walk_fails_where_the_queue_is_closed() {
    let (tx, rx) = unbounded::<String>();
    drop(rx);
    let listing = Some(vec![file("r/a", 10), dir("r/sub")]);
    assert_eq!(walk(&listing, &tx).unwrap_err(), WalkError::ChannelClosed);
    let flat = Some(vec![file("r/a", 10)]);
    assert_eq!(walk(&flat, &tx).unwrap().stats, Stats { size: 10, count: 1 });
}

#[test]
fn walk_fails_where_the_total_is_out_of_range() {
    let (tx, rx) = unbounded::<String>();
    let listing = Some(vec![file("a", u64::MAX), dir("sub"), file("b", 1)]);
    assert_eq!(walk(&listing, &tx).unwrap_err(), WalkError::Overflow);
    assert!(rx.try_recv().is_err());
}
