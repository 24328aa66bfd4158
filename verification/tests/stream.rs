use whalespotter::computer::{ChildEntry, ComputationEvent, Computer, ScanBatch};
use whalespotter::file_info::{EntryKind, EntryStat, FileInfo};
use whalespotter::result_stream::{result_stream, Published};

fn child(path: &str, kind: EntryKind, len: u64) -> ChildEntry {
    ChildEntry { path: path.to_string(), stat: Some(EntryStat { kind, links: 1, inode: 1, len }) }
}

fn record(path: &str, file_count: u64, size: u64, is_dir: bool) -> ComputationEvent {
    ComputationEvent::FileInfo(FileInfo { path: path.to_string(), file_count, size, is_dir })
}

#[test]
fn scan_puts_its_file_records_on_the_stream_in_order() {
    let mut computer = Computer::new();
    let kids = vec![
        child("/r/a", EntryKind::File, 10),
        child("/r/d", EntryKind::Dir, 0),
        child("/r/b", EntryKind::File, 20),
    ];
    let plan = computer.do_children(Some(&kids)).unwrap();
    assert_eq!(plan.delivered, 2);
    assert_eq!(computer.rx.try_recv().ok(), Some(record("/r/a", 1, 10, false)));
    assert_eq!(computer.rx.try_recv().ok(), Some(record("/r/b", 1, 20, false)));
    assert!(computer.rx.try_recv().is_err());
}

#[test]
fn scan_without_directories_puts_the_marker_on_the_stream() {
    let mut computer = Computer::new();
    let kids = vec![child("/r/a", EntryKind::File, 10)];
    let plan = computer.do_children(Some(&kids)).unwrap();
    assert_eq!(plan.delivered, 2);
    assert_eq!(computer.rx.try_recv().ok(), Some(record("/r/a", 1, 10, false)));
    assert_eq!(computer.rx.try_recv().ok(), Some(ComputationEvent::Finished));
    assert!(computer.rx.try_recv().is_err());
}

#[test]
fn unreadable_root_puts_nothing_on_the_stream() {
    let mut computer = Computer::new();
    assert!(computer.do_children(None).is_err());
    assert!(computer.rx.try_recv().is_err());
}

#[test]
fn workers_report_on_the_stream_of_their_computer() {
    let mut computer = Computer::new();
    let kids = vec![child("/r/d1", EntryKind::Dir, 0), child("/r/d2", EntryKind::Dir, 0)];
    let plan = computer.do_children(Some(&kids)).unwrap();
    assert_eq!(plan.delivered, 0);
    let mut batch = plan.batch;
    let mut first = computer.publisher();
    let mut second = computer.publisher();
    let one = FileInfo { path: "/r/d2".to_string(), file_count: 2, size: 5, is_dir: true };
    let two = FileInfo { path: "/r/d1".to_string(), file_count: 1, size: 0, is_dir: true };
    let done = second.report(&mut batch, computer.current_epoch(), one.clone());
    assert_eq!(done, Published { events: vec![ComputationEvent::FileInfo(one.clone())], delivered: 1 });
    let done = first.report(&mut batch, computer.current_epoch(), two.clone());
    assert_eq!(
        done,
        Published {
            events: vec![ComputationEvent::FileInfo(two.clone()), ComputationEvent::Finished],
            delivered: 2,
        }
    );
    assert_eq!(batch.outstanding, 0);
    assert_eq!(computer.rx.try_recv().ok(), Some(ComputationEvent::FileInfo(one)));
    assert_eq!(computer.rx.try_recv().ok(), Some(ComputationEvent::FileInfo(two)));
    assert_eq!(computer.rx.try_recv().ok(), Some(ComputationEvent::Finished));
    assert!(computer.rx.try_recv().is_err());
}

#[test]
fn superseded_worker_reports_nothing_on_the_stream() {
    let mut computer = Computer::new();
    let kids = vec![child("/r/d", EntryKind::Dir, 0)];
    let old = computer.do_children(Some(&kids)).unwrap();
    let mut old_batch = old.batch;
    let mut worker = computer.publisher();
    computer.do_children(Some(&kids)).unwrap();
    let info = FileInfo { path: "/r/d".to_string(), file_count: 1, size: 0, is_dir: true };
    let done = worker.report(&mut old_batch, computer.current_epoch(), info);
    assert_eq!(done, Published { events: vec![], delivered: 0 });
    assert_eq!(old_batch, ScanBatch { epoch: 1, outstanding: 1 });
    assert!(computer.rx.try_recv().is_err());
}

#[test]
fn publisher_sends_in_order_and_counts_what_was_taken() {
    let (mut publisher, rx) = result_stream();
    let events = vec![record("/a", 1, 1, false), record("/b", 1, 2, false), ComputationEvent::Finished];
    assert_eq!(publisher.publish(&events), 3);
    assert_eq!(publisher.publish(&vec![]), 0);
    let mut other = publisher.share();
    assert_eq!(other.publish(&vec![record("/c", 1, 3, false)]), 1);
    let received: Vec<ComputationEvent> = rx.try_iter().collect();
    assert_eq!(
        received,
        vec![
            record("/a", 1, 1, false),
            record("/b", 1, 2, false),
            ComputationEvent::Finished,
            record("/c", 1, 3, false),
        ]
    );
}

#[test]
fn closed_stream_takes_nothing() {
    let (mut publisher, rx) = result_stream();
    drop(rx);
    let events = vec![record("/a", 1, 1, false), ComputationEvent::Finished];
    assert_eq!(publisher.publish(&events), 0);
    let mut batch = ScanBatch { epoch: 1, outstanding: 1 };
    let info = FileInfo { path: "/r/d".to_string(), file_count: 1, size: 0, is_dir: true };
    let done = publisher.report(&mut batch, 1, info.clone());
    assert_eq!(done.delivered, 0);
    assert_eq!(done.events, vec![ComputationEvent::FileInfo(info), ComputationEvent::Finished]);
}

#[test]
fn copies_are_equal_to_what_they_copy() {
    let info = FileInfo { path: "/r/d".to_string(), file_count: 3, size: 9, is_dir: true };
    assert_eq!(info.duplicate(), info);
    let event = ComputationEvent::FileInfo(info);
    assert_eq!(event.duplicate(), event);
    assert_eq!(ComputationEvent::Finished.duplicate(), ComputationEvent::Finished);
}
