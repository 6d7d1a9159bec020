use rlaunch::walk::{EntryKind, WalkQueue};

#[test]
fn the_walk_starts_at_the_root() {
    let mut q = WalkQueue::new(String::from("runtime"));
    assert!(!q.isEmpty());
    assert_eq!(q.nextDirectory(), Some(String::from("runtime")));
    assert!(q.isEmpty());
    assert_eq!(q.nextDirectory(), None);
}

#[test]
fn directories_are_taken_in_discovery_order() {
    let mut q = WalkQueue::new(String::from("root"));
    assert_eq!(q.nextDirectory(), Some(String::from("root")));
    assert!(!q.processEntry(EntryKind::Directory, String::from("root/bin")));
    assert!(!q.processEntry(EntryKind::Directory, String::from("root/lib")));
    assert_eq!(q.nextDirectory(), Some(String::from("root/bin")));
    assert!(!q.processEntry(EntryKind::Directory, String::from("root/bin/tools")));
    assert_eq!(q.nextDirectory(), Some(String::from("root/lib")));
    assert_eq!(q.nextDirectory(), Some(String::from("root/bin/tools")));
    assert!(q.isEmpty());
}

#[test]
fn files_are_visited_and_others_skipped() {
    let mut q = WalkQueue::new(String::from("root"));
    assert_eq!(q.nextDirectory(), Some(String::from("root")));
    assert!(q.processEntry(EntryKind::File, String::from("root/release")));
    assert!(!q.processEntry(EntryKind::Other, String::from("root/selflink")));
    // neither added anything to the queue
    assert!(q.isEmpty());
}
