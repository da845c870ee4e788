use nws::purge::{purge_config, purge_dir, DirEntry, DirPurge, EntryKind, RootEntry};

const NOON_SECONDS: i64 = 1793188800;
const PAST: &str = "Wed, 28 Oct 2026 11:59:59 GMT";
const NOON: &str = "Wed, 28 Oct 2026 12:00:00 GMT";
const FUTURE: &str = "Wed, 28 Oct 2026 12:00:01 GMT";

fn file(name: &str) -> DirEntry {
    DirEntry { name: String::from(name), kind: EntryKind::File }
}

fn key_dir(name: &str, entries: Vec<DirEntry>) -> RootEntry {
    RootEntry { name: String::from(name), kind: EntryKind::Directory, listing: Some(entries) }
}

#[test]
fn purge_removes_a_directory_of_expired_entries() {
    let plan = purge_dir(7, &vec![file(PAST), file(NOON)], NOON_SECONDS);
    assert_eq!(plan, DirPurge { dir: 7, stale: vec![0, 1], remove_dir: true });
}

#[test]
fn purge_keeps_a_directory_with_a_valid_entry() {
    let plan = purge_dir(0, &vec![file(PAST), file(FUTURE), file(NOON)], NOON_SECONDS);
    assert_eq!(plan, DirPurge { dir: 0, stale: vec![0, 2], remove_dir: false });
}

#[test]
fn purge_removes_an_empty_directory() {
    let plan = purge_dir(3, &vec![], NOON_SECONDS);
    assert_eq!(plan, DirPurge { dir: 3, stale: vec![], remove_dir: true });
}

#[test]
fn purge_deletes_files_that_are_named_by_no_date() {
    let plan = purge_dir(0, &vec![file("garbage"), file("")], NOON_SECONDS);
    assert_eq!(plan, DirPurge { dir: 0, stale: vec![0, 1], remove_dir: true });
    let plan = purge_dir(0, &vec![file("garbage"), file(FUTURE)], NOON_SECONDS);
    assert_eq!(plan, DirPurge { dir: 0, stale: vec![0], remove_dir: false });
}

#[test]
fn purge_leaves_what_is_no_file() {
    let entries = vec![
        file(PAST),
        DirEntry { name: String::from(PAST), kind: EntryKind::Directory },
        DirEntry { name: String::from("garbage"), kind: EntryKind::Other },
    ];
    let plan = purge_dir(0, &entries, NOON_SECONDS);
    assert_eq!(plan, DirPurge { dir: 0, stale: vec![0], remove_dir: false });
}

#[test]
fn purge_follows_the_instant() {
    let entries = vec![file(NOON)];
    assert_eq!(purge_dir(0, &entries, NOON_SECONDS - 1).remove_dir, false);
    assert_eq!(purge_dir(0, &entries, NOON_SECONDS - 1).stale, Vec::<usize>::new());
    assert_eq!(purge_dir(0, &entries, NOON_SECONDS).remove_dir, true);
    assert_eq!(purge_dir(0, &entries, NOON_SECONDS).stale, vec![0]);
}

#[test]
fn purge_visits_the_key_directories_in_order() {
    let root = vec![
        key_dir("a", vec![file(PAST)]),
        RootEntry { name: String::from("stray.txt"), kind: EntryKind::File, listing: None },
        key_dir("b", vec![file(FUTURE), file("garbage")]),
        RootEntry { name: String::from("locked"), kind: EntryKind::Directory, listing: None },
        key_dir("c", vec![]),
        RootEntry { name: String::from("odd"), kind: EntryKind::Other, listing: Some(vec![file(PAST)]) },
    ];
    let plans = purge_config(&root, NOON_SECONDS);
    assert_eq!(
        plans,
        vec![
            DirPurge { dir: 0, stale: vec![0], remove_dir: true },
            DirPurge { dir: 2, stale: vec![1], remove_dir: false },
            DirPurge { dir: 4, stale: vec![], remove_dir: true },
        ]
    );
}

#[test]
fn purge_of_an_empty_root_does_nothing() {
    assert_eq!(purge_config(&vec![], NOON_SECONDS), vec![]);
}

#[test]
fn purge_of_a_root_follows_the_instant() {
    let root = vec![
        key_dir("old", vec![file("Thu, 01 Jan 1970 00:00:00 GMT")]),
        key_dir("new", vec![file("Fri, 31 Dec 2100 23:59:59 GMT")]),
    ];
    assert_eq!(
        purge_config(&root, -1),
        vec![
            DirPurge { dir: 0, stale: vec![], remove_dir: false },
            DirPurge { dir: 1, stale: vec![], remove_dir: false },
        ]
    );
    assert_eq!(
        purge_config(&root, NOON_SECONDS),
        vec![
            DirPurge { dir: 0, stale: vec![0], remove_dir: true },
            DirPurge { dir: 1, stale: vec![], remove_dir: false },
        ]
    );
    assert_eq!(
        purge_config(&root, 4133980799),
        vec![
            DirPurge { dir: 0, stale: vec![0], remove_dir: true },
            DirPurge { dir: 1, stale: vec![0], remove_dir: true },
        ]
    );
}
