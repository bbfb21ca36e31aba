use crust_ls::collect::Collector;
use crust_ls::mode::CrustFileKind;
use crust_ls::record::{CrustFileMetadata, RawMetadata};

fn regular(size: u128) -> RawMetadata {
    RawMetadata { mode: 0o100644, size, owner: 1000, last_modified: 1700000000 }
}

fn directory() -> RawMetadata {
    RawMetadata { mode: 0o040755, size: 4096, owner: 0, last_modified: 5 }
}

fn names_of(files: &Vec<CrustFileMetadata>) -> Vec<String> {
    files.iter().map(|f| f.name.clone()).collect()
}

#[test]
fn missing_top_level_path_gives_diagnostic_and_empty_listing() {
    let mut collector = Collector::new("/no/such/dir", false);
    assert_eq!(collector.next_directory(), Some("/no/such/dir".to_string()));
    collector.open_failed();
    assert!(collector.is_done());
    assert_eq!(collector.next_directory(), None);
    let collected = collector.finish();
    assert!(collected.files.is_empty());
    assert_eq!(collected.diagnostics, vec!["Failed to open directory: /no/such/dir"]);
    assert!(collected.failed);
}

#[test]
fn entry_that_cannot_be_queried_is_skipped_with_a_diagnostic() {
    let mut collector = Collector::new("dir", false);
    assert_eq!(collector.next_directory(), Some("dir".to_string()));
    collector.record_entry("first", Some(regular(1)), false);
    collector.record_entry("gone", None, false);
    collector.record_entry("last", Some(regular(3)), false);
    collector.close_directory();
    let collected = collector.finish();
    assert_eq!(names_of(&collected.files), vec!["first", "last"]);
    assert_eq!(collected.diagnostics, vec!["Failed to stat file: dir/gone"]);
    assert!(!collected.failed);
}

#[test]
fn dot_entries_are_never_queried_or_listed() {
    let mut collector = Collector::new("dir", true);
    collector.next_directory();
    assert_eq!(collector.entry_path("."), None);
    assert_eq!(collector.entry_path(".."), None);
    assert_eq!(collector.entry_path(".hidden"), Some("dir/.hidden".to_string()));
    assert_eq!(collector.entry_path("a.txt"), Some("dir/a.txt".to_string()));
    collector.record_entry(".", Some(directory()), false);
    collector.record_entry("..", Some(directory()), false);
    collector.record_entry(".", None, false);
    collector.close_directory();
    assert!(collector.is_done());
    let collected = collector.finish();
    assert!(collected.files.is_empty());
    assert!(collected.diagnostics.is_empty());
}

#[test]
fn records_keep_the_order_of_enumeration_and_the_queried_values() {
    let mut collector = Collector::new("/srv", false);
    collector.next_directory();
    collector.record_entry("b.txt", Some(regular(10)), false);
    collector.record_entry(".hidden", Some(regular(1)), false);
    collector.record_entry("sub", Some(directory()), false);
    collector.close_directory();
    assert!(collector.is_done());
    let collected = collector.finish();
    assert_eq!(names_of(&collected.files), vec!["b.txt", ".hidden", "sub"]);
    let first = &collected.files[0];
    assert_eq!(first.kind, CrustFileKind::Regular);
    assert_eq!(first.size, 10);
    assert_eq!(first.owner, 1000);
    assert_eq!(first.last_modified, 1700000000);
    assert_eq!(first.permissions.as_string(), "rw-r--r--");
    assert_eq!(collected.files[2].kind, CrustFileKind::Directory);
    assert_eq!(collected.files[2], CrustFileMetadata::from_raw("sub".to_string(), directory()));
}

#[test]
fn without_recursion_directories_are_not_entered() {
    let mut collector = Collector::new("top", false);
    collector.next_directory();
    collector.record_entry("sub", Some(directory()), false);
    collector.close_directory();
    assert_eq!(collector.next_directory(), None);
}

#[test]
fn recursion_enters_directories_and_qualifies_names() {
    let mut collector = Collector::new("top", true);
    assert_eq!(collector.next_directory(), Some("top".to_string()));
    collector.record_entry("a", Some(regular(1)), false);
    collector.record_entry("sub", Some(directory()), false);
    collector.record_entry("other", Some(directory()), false);
    collector.close_directory();
    assert!(!collector.is_done());
    assert_eq!(collector.next_directory(), Some("top/sub".to_string()));
    assert_eq!(collector.entry_path("inner"), Some("top/sub/inner".to_string()));
    collector.record_entry("inner", Some(regular(2)), false);
    collector.record_entry("deep", Some(directory()), false);
    collector.close_directory();
    assert_eq!(collector.next_directory(), Some("top/other".to_string()));
    collector.close_directory();
    assert_eq!(collector.next_directory(), Some("top/sub/deep".to_string()));
    collector.record_entry("leaf", None, false);
    collector.close_directory();
    assert_eq!(collector.next_directory(), None);
    assert!(collector.is_done());
    let collected = collector.finish();
    assert_eq!(names_of(&collected.files), vec!["a", "sub", "other", "sub/inner", "sub/deep"]);
    assert_eq!(collected.diagnostics, vec!["Failed to stat file: top/sub/deep/leaf"]);
    assert!(!collected.failed);
}

#[test]
fn symbolic_links_to_directories_are_listed_but_not_followed() {
    let mut collector = Collector::new("top", true);
    collector.next_directory();
    collector.record_entry("loop", Some(directory()), true);
    collector.close_directory();
    assert_eq!(collector.next_directory(), None);
    let collected = collector.finish();
    assert_eq!(names_of(&collected.files), vec!["loop"]);
}

#[test]
fn failure_below_the_top_does_not_fail_the_collection() {
    let mut collector = Collector::new("top", true);
    collector.next_directory();
    collector.record_entry("locked", Some(directory()), false);
    collector.record_entry("open", Some(directory()), false);
    collector.close_directory();
    assert_eq!(collector.next_directory(), Some("top/locked".to_string()));
    collector.open_failed();
    assert_eq!(collector.next_directory(), Some("top/open".to_string()));
    collector.record_entry("x", Some(regular(1)), false);
    collector.close_directory();
    let collected = collector.finish();
    assert_eq!(names_of(&collected.files), vec!["locked", "open", "open/x"]);
    assert_eq!(collected.diagnostics, vec!["Failed to open directory: top/locked"]);
    assert!(!collected.failed);
}

#[test]
fn events_outside_a_directory_change_nothing() {
    let mut collector = Collector::new("top", false);
    assert_eq!(collector.entry_path("a"), None);
    collector.record_entry("a", Some(regular(1)), false);
    collector.open_failed();
    assert_eq!(collector.next_directory(), Some("top".to_string()));
    collector.close_directory();
    let collected = collector.finish();
    assert!(collected.files.is_empty());
    assert!(collected.diagnostics.is_empty());
    assert!(!collected.failed);
}

#[test]
fn record_is_built_from_raw_mode_values() {
    let record = CrustFileMetadata::new("x".to_string(), 0o040000, 7, 0o000750, 3, -9);
    assert_eq!(record.kind, CrustFileKind::Directory);
    assert_eq!(record.permissions.as_string(), "rwxr-x---");
    assert_eq!(record.size, 7);
    assert_eq!(record.owner, 3);
    assert_eq!(record.last_modified, -9);
    assert_eq!(record.name, "x");
}
