use memthol::watcher::{Plan, Watcher};

#[test]
fn a_new_file_is_read_from_its_start() {
    let mut watcher = Watcher::new();
    assert_eq!(watcher.len(), 0);
    assert_eq!(watcher.pending("a.dump"), None);
    assert_eq!(watcher.observe("a.dump", 10), Plan::Read { from: 0, count: 10 });
    assert_eq!(watcher.len(), 1);
    assert_eq!(watcher.pending("a.dump"), Some(&vec![]));
    assert_eq!(watcher.observe("empty.dump", 0), Plan::Idle);
    assert_eq!(watcher.len(), 2);
}

#[test]
fn a_failed_read_is_asked_for_again() {
    let mut watcher = Watcher::new();
    assert_eq!(watcher.observe("a.dump", 10), Plan::Read { from: 0, count: 10 });
    assert_eq!(watcher.observe("a.dump", 10), Plan::Read { from: 0, count: 10 });
    assert_eq!(watcher.observe("a.dump", 12), Plan::Read { from: 0, count: 12 });
    assert_eq!(watcher.len(), 1);
}

#[test]
fn incomplete_records_wait_for_more() {
    let mut watcher = Watcher::new();
    watcher.observe("a.dump", 5);
    assert!(watcher.feed("a.dump", vec![1, 2, 3, 4, 5]));
    assert_eq!(watcher.pending("a.dump"), Some(&vec![1, 2, 3, 4, 5]));
    assert!(watcher.consume("a.dump", 3));
    assert_eq!(watcher.pending("a.dump"), Some(&vec![4, 5]));
    assert_eq!(watcher.observe("a.dump", 5), Plan::Idle);
    assert_eq!(watcher.observe("a.dump", 9), Plan::Read { from: 5, count: 4 });
    assert!(watcher.feed("a.dump", vec![6, 7]));
    assert_eq!(watcher.pending("a.dump"), Some(&vec![4, 5, 6, 7]));
    assert_eq!(watcher.observe("a.dump", 9), Plan::Read { from: 7, count: 2 });
    assert!(watcher.consume("a.dump", 0));
    assert_eq!(watcher.pending("a.dump"), Some(&vec![4, 5, 6, 7]));
    assert!(!watcher.consume("a.dump", 5));
    assert_eq!(watcher.pending("a.dump"), Some(&vec![4, 5, 6, 7]));
    assert!(watcher.consume("a.dump", 4));
    assert_eq!(watcher.pending("a.dump"), Some(&vec![]));
    assert_eq!(watcher.observe("a.dump", 9), Plan::Read { from: 7, count: 2 });
}

#[test]
fn files_are_followed_apart() {
    let mut watcher = Watcher::new();
    watcher.observe("a.dump", 2);
    watcher.observe("b.dump", 3);
    assert!(watcher.feed("b.dump", vec![9, 9, 9]));
    assert!(watcher.feed("a.dump", vec![1]));
    assert_eq!(watcher.pending("a.dump"), Some(&vec![1]));
    assert_eq!(watcher.pending("b.dump"), Some(&vec![9, 9, 9]));
    assert_eq!(watcher.observe("a.dump", 2), Plan::Read { from: 1, count: 1 });
    assert_eq!(watcher.observe("b.dump", 3), Plan::Idle);
    assert_eq!(watcher.len(), 2);
}

#[test]
fn what_is_not_followed_is_refused() {
    let mut watcher = Watcher::new();
    assert!(!watcher.feed("a.dump", vec![1]));
    assert!(!watcher.consume("a.dump", 0));
    assert_eq!(watcher.len(), 0);
    watcher.observe("a.dump", 1);
    assert!(!watcher.feed("b.dump", vec![1]));
    assert!(!watcher.consume("b.dump", 0));
    assert_eq!(watcher.pending("b.dump"), None);
}

#[test]
fn a_file_that_shrinks_is_reported() {
    let mut watcher = Watcher::new();
    watcher.observe("a.dump", 4);
    assert!(watcher.feed("a.dump", vec![1, 2, 3, 4]));
    assert_eq!(watcher.observe("a.dump", 3), Plan::Shrunk);
    assert_eq!(watcher.observe("a.dump", 4), Plan::Idle);
    assert_eq!(watcher.pending("a.dump"), Some(&vec![1, 2, 3, 4]));
}
