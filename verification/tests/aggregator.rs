use whalespotter::file_info::{DirWalk, Entry, EntryKind, EntryStat, FileInfo};

fn file(inode: u64, len: u64) -> Option<EntryStat> {
    Some(EntryStat { kind: EntryKind::File, links: 1, inode, len })
}

fn linked(inode: u64, links: u64, len: u64) -> Option<EntryStat> {
    Some(EntryStat { kind: EntryKind::File, links, inode, len })
}

fn dir(inode: u64, len: u64) -> Option<EntryStat> {
    Some(EntryStat { kind: EntryKind::Dir, links: 2, inode, len })
}

fn leaf(path: &str, stat: Option<EntryStat>) -> Entry {
    Entry { path: path.to_string(), stat, children: vec![] }
}

fn branch(path: &str, stat: Option<EntryStat>, children: Vec<Entry>) -> Entry {
    Entry { path: path.to_string(), stat, children }
}

#[test]
fn empty_directory_counts_itself_only() {
    let info = FileInfo::from_dir("/tmp/x/d".to_string(), &vec![]);
    assert_eq!(
        info,
        FileInfo { path: "/tmp/x/d".to_string(), file_count: 1, size: 0, is_dir: true }
    );
}

#[test]
fn plain_files_add_their_lengths() {
    let listing = vec![leaf("/r/a", file(1, 100)), leaf("/r/b", file(2, 23)), leaf("/r/c", file(3, 0))];
    let info = FileInfo::from_dir("/r".to_string(), &listing);
    assert_eq!(info.file_count, 4);
    assert_eq!(info.size, 123);
    assert!(info.is_dir);
    assert_eq!(info.path, "/r");
}

#[test]
fn hard_link_met_twice_is_sized_once_and_counted_twice() {
    let listing = vec![leaf("/r/b", linked(7, 2, 50)), leaf("/r/b2", linked(7, 2, 50))];
    let info = FileInfo::from_dir("/r".to_string(), &listing);
    assert_eq!(info.size, 50);
    assert_eq!(info.file_count, 3);
}

#[test]
fn hard_link_met_in_two_directories_of_one_walk_is_sized_once() {
    let listing = vec![
        branch("/r/d1", dir(10, 0), vec![leaf("/r/d1/b", linked(7, 2, 50))]),
        branch("/r/d2", dir(11, 0), vec![leaf("/r/d2/b", linked(7, 2, 50)), leaf("/r/d2/c", file(8, 5))]),
    ];
    let info = FileInfo::from_dir("/r".to_string(), &listing);
    assert_eq!(info.size, 55);
    assert_eq!(info.file_count, 6);
}

#[test]
fn same_inode_with_one_link_is_not_deduplicated() {
    let listing = vec![leaf("/r/a", file(7, 50)), leaf("/r/b", file(7, 50))];
    let info = FileInfo::from_dir("/r".to_string(), &listing);
    assert_eq!(info.size, 100);
    assert_eq!(info.file_count, 3);
}

#[test]
fn directory_with_the_inode_of_a_linked_file_is_not_deduplicated() {
    let listing = vec![leaf("/r/a", linked(7, 2, 50)), branch("/r/d", dir(7, 4096), vec![])];
    let info = FileInfo::from_dir("/r".to_string(), &listing);
    assert_eq!(info.size, 4146);
    assert_eq!(info.file_count, 3);
}

#[test]
fn entry_that_cannot_be_stat_ed_counts_with_no_size() {
    let listing = vec![leaf("/r/gone", None), leaf("/r/a", file(1, 9))];
    let info = FileInfo::from_dir("/r".to_string(), &listing);
    assert_eq!(info.file_count, 3);
    assert_eq!(info.size, 9);
}

#[test]
fn children_of_what_is_not_a_directory_are_not_walked() {
    let listing = vec![
        branch("/r/odd", file(1, 10), vec![leaf("/r/odd/x", file(2, 1000))]),
        branch("/r/gone", None, vec![leaf("/r/gone/y", file(3, 1000))]),
    ];
    let info = FileInfo::from_dir("/r".to_string(), &listing);
    assert_eq!(info.file_count, 3);
    assert_eq!(info.size, 10);
}

#[test]
fn nested_directories_are_walked_to_the_bottom() {
    let listing = vec![
        leaf("/r/a", file(1, 1)),
        branch(
            "/r/d",
            dir(2, 4096),
            vec![
                leaf("/r/d/b", file(3, 10)),
                branch("/r/d/e", dir(4, 4096), vec![leaf("/r/d/e/c", file(5, 100))]),
            ],
        ),
        leaf("/r/link", Some(EntryStat { kind: EntryKind::Other, links: 1, inode: 6, len: 7 })),
    ];
    let info = FileInfo::from_dir("/r".to_string(), &listing);
    assert_eq!(info.file_count, 7);
    assert_eq!(info.size, 1 + 4096 + 10 + 4096 + 100 + 7);
}

#[test]
fn file_record_is_one_entry_of_its_own_length() {
    assert_eq!(
        FileInfo::file("/tmp/x/a".to_string(), 100),
        FileInfo { path: "/tmp/x/a".to_string(), file_count: 1, size: 100, is_dir: false }
    );
}

#[test]
fn streaming_walk_lists_the_directory_found_last_first() {
    let mut walk = DirWalk::new("/r".to_string());
    assert_eq!(walk.next_dir(), Some("/r".to_string()));
    walk.visit("/r/d1", dir(1, 0));
    walk.visit("/r/a", file(2, 5));
    walk.visit("/r/d2", dir(3, 0));
    assert_eq!(walk.next_dir(), Some("/r/d2".to_string()));
    walk.visit("/r/d2/deep", dir(4, 0));
    assert_eq!(walk.next_dir(), Some("/r/d2/deep".to_string()));
    assert_eq!(walk.next_dir(), Some("/r/d1".to_string()));
    walk.visit("/r/d1/b", file(5, 6));
    assert_eq!(walk.next_dir(), None);
    assert_eq!(walk.file_count(), 6);
    assert_eq!(walk.size(), 11);
    assert_eq!(
        walk.finish(),
        FileInfo { path: "/r".to_string(), file_count: 6, size: 11, is_dir: true }
    );
}

#[test]
fn streaming_walk_counts_a_hard_link_once() {
    let mut walk = DirWalk::new("/r".to_string());
    assert_eq!(walk.next_dir(), Some("/r".to_string()));
    walk.visit("/r/b", linked(7, 3, 50));
    walk.visit("/r/b2", linked(7, 3, 50));
    walk.visit("/r/b3", linked(7, 3, 50));
    walk.visit("/r/other", linked(8, 2, 1));
    assert_eq!(walk.size(), 51);
    assert_eq!(walk.file_count(), 5);
}

#[test]
fn streaming_walk_refuses_what_would_overflow() {
    let mut walk = DirWalk::new("/r".to_string());
    walk.visit("/r/huge", file(1, u64::MAX - 1));
    assert!(walk.can_visit(&file(2, 1)));
    assert!(!walk.can_visit(&file(2, 2)));
    assert!(walk.can_visit(&None));
    walk.visit("/r/b", linked(7, 2, 1));
    assert_eq!(walk.size(), u64::MAX);
    assert!(walk.can_visit(&linked(7, 2, 1)));
    assert!(!walk.can_visit(&linked(8, 2, 1)));
    assert!(walk.can_visit(&file(9, 0)));
}

#[test]
fn entry_stat_tells_its_kind() {
    assert!(dir(1, 0).unwrap().is_dir());
    assert!(!dir(1, 0).unwrap().is_file());
    assert!(file(1, 0).unwrap().is_file());
    assert!(!file(1, 0).unwrap().is_dir());
    let other = EntryStat { kind: EntryKind::Other, links: 1, inode: 1, len: 0 };
    assert!(!other.is_dir() && !other.is_file());
}
