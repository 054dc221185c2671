use stall::{Entry, LoadStatus, Stall};

fn pairs_of(stall: &Stall) -> Vec<(String, String)> {
    stall
        .entries()
        .iter()
        .map(|e: &Entry<'_>| (e.local.to_string(), e.remote.to_string()))
        .collect()
}

fn pair(local: &str, remote: &str) -> (String, String) {
    (local.to_string(), remote.to_string())
}

#[test]
fn new_registry_is_empty_attached_and_unmodified() {
    let stall = Stall::new("dir/stall.ron");
    assert!(stall.is_empty());
    assert_eq!(stall.load_path(), Some("dir/stall.ron"));
    assert!(!stall.modified());
    assert!(stall.entries().is_empty());
}

#[test]
fn insert_is_found_by_local_and_by_remote() {
    let mut stall = Stall::new("stall");
    stall.insert("notes.txt".to_string(), "/home/me/notes.txt".to_string());
    let by_local = stall.entry_local("notes.txt").unwrap();
    assert_eq!(by_local.local, "notes.txt");
    assert_eq!(by_local.remote, "/home/me/notes.txt");
    let by_remote = stall.entry_remote("/home/me/notes.txt").unwrap();
    assert_eq!(by_remote.local, "notes.txt");
    assert_eq!(by_remote.remote, "/home/me/notes.txt");
    assert!(!stall.is_empty());
    assert!(stall.modified());
}

#[test]
fn lookup_of_absent_paths_gives_none() {
    let mut stall = Stall::new("stall");
    assert!(stall.entry_local("a").is_none());
    assert!(stall.entry_remote("b").is_none());
    stall.insert("a".to_string(), "b".to_string());
    assert!(stall.entry_local("b").is_none());
    assert!(stall.entry_remote("a").is_none());
}

#[test]
fn insert_with_same_local_evicts_old_remote() {
    let mut stall = Stall::new("stall");
    stall.insert("l".to_string(), "r1".to_string());
    stall.insert("l".to_string(), "r2".to_string());
    assert!(stall.entry_remote("r1").is_none());
    let e = stall.entry_remote("r2").unwrap();
    assert_eq!((e.local, e.remote), ("l", "r2"));
    assert_eq!(pairs_of(&stall), vec![pair("l", "r2")]);
}

#[test]
fn insert_with_same_remote_evicts_old_local() {
    let mut stall = Stall::new("stall");
    stall.insert("l1".to_string(), "r".to_string());
    stall.insert("l2".to_string(), "r".to_string());
    assert!(stall.entry_local("l1").is_none());
    let e = stall.entry_local("l2").unwrap();
    assert_eq!((e.local, e.remote), ("l2", "r"));
    assert_eq!(pairs_of(&stall), vec![pair("l2", "r")]);
}

#[test]
fn one_insert_can_evict_two_entries() {
    let mut stall = Stall::new("stall");
    stall.insert("a".to_string(), "1".to_string());
    stall.insert("b".to_string(), "2".to_string());
    stall.insert("c".to_string(), "3".to_string());
    stall.insert("a".to_string(), "2".to_string());
    assert_eq!(pairs_of(&stall), vec![pair("a", "2"), pair("c", "3")]);
    assert!(stall.entry_remote("1").is_none());
    assert!(stall.entry_local("b").is_none());
}

#[test]
fn inserting_the_same_pair_twice_keeps_one_entry() {
    let mut stall = Stall::new("stall");
    stall.insert("a".to_string(), "1".to_string());
    stall.insert("a".to_string(), "1".to_string());
    assert_eq!(pairs_of(&stall), vec![pair("a", "1")]);
}

#[test]
fn entries_come_in_ascending_order_of_local_path() {
    let mut stall = Stall::new("stall");
    stall.insert("b".to_string(), "1".to_string());
    stall.insert("a/z".to_string(), "2".to_string());
    stall.insert("a".to_string(), "3".to_string());
    stall.insert("B".to_string(), "4".to_string());
    stall.insert("\u{e9}".to_string(), "5".to_string());
    stall.insert("ab".to_string(), "6".to_string());
    assert_eq!(
        pairs_of(&stall),
        vec![
            pair("B", "4"),
            pair("a", "3"),
            pair("a/z", "2"),
            pair("ab", "6"),
            pair("b", "1"),
            pair("\u{e9}", "5"),
        ]
    );
}

#[test]
fn remove_local_returns_the_pair_and_marks_modified() {
    let mut stall = Stall::new("stall");
    stall.insert("a".to_string(), "1".to_string());
    stall.insert("b".to_string(), "2".to_string());
    stall.set_modified(false);
    assert_eq!(stall.remove_local("a"), Some(pair("a", "1")));
    assert!(stall.modified());
    assert!(stall.entry_local("a").is_none());
    assert!(stall.entry_remote("1").is_none());
    assert_eq!(pairs_of(&stall), vec![pair("b", "2")]);
}

#[test]
fn remove_local_of_absent_path_gives_none_but_marks_modified() {
    let mut stall = Stall::new("stall");
    assert!(!stall.modified());
    assert_eq!(stall.remove_local("nothing"), None);
    assert!(stall.modified());
    assert!(stall.is_empty());
}

#[test]
fn remove_remote_returns_the_pair_and_marks_modified() {
    let mut stall = Stall::new("stall");
    stall.insert("a".to_string(), "1".to_string());
    stall.insert("b".to_string(), "2".to_string());
    stall.set_modified(false);
    assert_eq!(stall.remove_remote("2"), Some(pair("b", "2")));
    assert!(stall.modified());
    assert!(stall.entry_local("b").is_none());
    assert_eq!(pairs_of(&stall), vec![pair("a", "1")]);
}

#[test]
fn remove_remote_of_absent_path_gives_none_but_marks_modified() {
    let mut stall = Stall::new("stall");
    stall.insert("a".to_string(), "1".to_string());
    stall.set_modified(false);
    assert_eq!(stall.remove_remote("a"), None);
    assert!(stall.modified());
    assert_eq!(pairs_of(&stall), vec![pair("a", "1")]);
}

#[test]
fn load_path_and_modified_are_independent() {
    let mut stall = Stall::new("first");
    stall.set_modified(true);
    stall.set_load_path("second");
    assert_eq!(stall.load_path(), Some("second"));
    assert!(stall.modified());
    let stall = stall.with_load_path("third");
    assert_eq!(stall.load_path(), Some("third"));
    assert!(stall.modified());
}

#[test]
fn clone_keeps_entries_and_status() {
    let mut stall = Stall::new("here");
    stall.insert("a".to_string(), "x/a".to_string());
    let copy = stall.clone();
    stall.insert("b".to_string(), "x/b".to_string());
    assert_eq!(pairs_of(&copy), vec![pair("a", "x/a")]);
    assert_eq!(copy.load_path(), Some("here"));
    assert!(copy.modified());
    assert_eq!(pairs_of(&stall), vec![pair("a", "x/a"), pair("b", "x/b")]);
}

#[test]
fn load_status_accessors() {
    let status = LoadStatus::default();
    assert_eq!(status.load_path(), None);
    assert!(!status.modified());
    let mut status = status.with_load_path("p");
    assert_eq!(status.load_path(), Some("p"));
    assert!(!status.modified());
    status.set_modified(true);
    assert!(status.modified());
    status.set_load_path("q");
    assert_eq!(status.load_path(), Some("q"));
    assert!(status.modified());
    status.set_modified(false);
    assert!(!status.modified());
    assert_eq!(status.clone().load_path(), Some("q"));
}
