use crust_ls::pipeline::{
    arrange, skip_hidden, skip_hidden_files, sort_file_size, sort_filenames, sort_listing,
    ListingOptions,
};
use crust_ls::record::{CrustFileMetadata, SortBy};

fn file(name: &str, size: u128, modified: i64) -> CrustFileMetadata {
    CrustFileMetadata::new(name.to_string(), 0o100644, size, 0o100644, 1000, modified)
}

fn names_of(files: &Vec<CrustFileMetadata>) -> Vec<String> {
    files.iter().map(|f| f.name.clone()).collect()
}

fn sample_directory() -> Vec<CrustFileMetadata> {
    vec![file(".hidden", 1, 30), file("b.txt", 10, 10), file("a.txt", 2000, 20)]
}

#[test]
fn filenames_are_sorted_byte_wise() {
    let mut names = vec!["b.txt", "a.txt", "Z", ".hidden", "ab", "a"];
    sort_filenames(&mut names);
    assert_eq!(names, vec![".hidden", "Z", "a", "a.txt", "ab", "b.txt"]);
}

#[test]
fn sorting_filenames_keeps_every_name() {
    let mut names = vec!["x", "x", "a", "x", "a"];
    sort_filenames(&mut names);
    assert_eq!(names, vec!["a", "a", "x", "x", "x"]);
}

#[test]
fn sorting_no_names_or_one_name() {
    let mut none: Vec<&str> = Vec::new();
    sort_filenames(&mut none);
    assert!(none.is_empty());
    let mut one = vec!["only"];
    sort_filenames(&mut one);
    assert_eq!(one, vec!["only"]);
}

#[test]
fn sorting_sorted_filenames_changes_nothing() {
    let mut names = vec!["d", "b", "a", "c", "e"];
    sort_filenames(&mut names);
    let once = names.clone();
    sort_filenames(&mut names);
    assert_eq!(names, once);
    assert_eq!(names, vec!["a", "b", "c", "d", "e"]);
}

#[test]
fn sorting_matches_the_standard_sort_on_names() {
    let mut names = vec!["日本", "é", "z", "a", "", "B", "b", "..", "~", "0", "a0", "a "];
    let mut expected = names.clone();
    expected.sort();
    sort_filenames(&mut names);
    assert_eq!(names, expected);
}

#[test]
fn hidden_filenames_are_skipped() {
    let mut names = vec![".hidden", "b.txt", ".git", "a.txt", "..", "."];
    skip_hidden(&mut names);
    assert_eq!(names, vec!["b.txt", "a.txt"]);
}

#[test]
fn skipping_hidden_keeps_order_and_dots_inside_names() {
    let mut names = vec!["z.", "a.b", ".x", "m"];
    skip_hidden(&mut names);
    assert_eq!(names, vec!["z.", "a.b", "m"]);
    let mut none: Vec<&str> = Vec::new();
    skip_hidden(&mut none);
    assert!(none.is_empty());
}

#[test]
fn hidden_records_are_skipped() {
    let mut files = sample_directory();
    skip_hidden_files(&mut files);
    assert_eq!(names_of(&files), vec!["b.txt", "a.txt"]);
    assert_eq!(files[0], file("b.txt", 10, 10));
}

#[test]
fn size_sort_is_non_decreasing() {
    let mut files = vec![file("e", 5, 0), file("a", 3, 0), file("c", 9, 0), file("b", 0, 0)];
    sort_file_size(&mut files);
    let sizes: Vec<u128> = files.iter().map(|f| f.size).collect();
    assert_eq!(sizes, vec![0, 3, 5, 9]);
    assert_eq!(names_of(&files), vec!["b", "a", "e", "c"]);
}

#[test]
fn size_ties_fall_back_to_name_order() {
    let mut files = vec![file("c", 7, 0), file("a", 7, 0), file("b", 7, 0), file("z", 1, 0)];
    sort_file_size(&mut files);
    assert_eq!(names_of(&files), vec!["z", "a", "b", "c"]);
}

#[test]
fn modification_time_sort_is_ascending_with_name_ties() {
    let mut files = vec![file("n", 0, 50), file("b", 0, -5), file("a", 0, 50), file("m", 0, 7)];
    sort_listing(&mut files, SortBy::ModifiedTime);
    assert_eq!(names_of(&files), vec!["b", "m", "a", "n"]);
}

#[test]
fn name_sort_of_records_carries_the_whole_record() {
    let mut files = sample_directory();
    sort_listing(&mut files, SortBy::Name);
    assert_eq!(files, vec![file(".hidden", 1, 30), file("a.txt", 2000, 20), file("b.txt", 10, 10)]);
}

#[test]
fn sorting_a_sorted_listing_changes_nothing() {
    for by in [SortBy::Name, SortBy::Size, SortBy::ModifiedTime] {
        let mut files = sample_directory();
        sort_listing(&mut files, by);
        let once = files.clone();
        sort_listing(&mut files, by);
        assert_eq!(files, once);
    }
}

#[test]
fn sort_is_stable_for_records_that_tie_on_key_and_name() {
    let mut files = vec![file("a", 1, 9), file("a", 1, 3), file("a", 1, 5)];
    sort_listing(&mut files, SortBy::Size);
    let times: Vec<i64> = files.iter().map(|f| f.last_modified).collect();
    assert_eq!(times, vec![9, 3, 5]);
}

#[test]
fn default_listing_is_name_sorted_without_hidden() {
    let mut files = sample_directory();
    arrange(&mut files, &ListingOptions::default());
    assert_eq!(names_of(&files), vec!["a.txt", "b.txt"]);
}

#[test]
fn size_sorted_listing_of_all_files() {
    let mut files = sample_directory();
    let options = ListingOptions { all: true, sort_by: SortBy::Size, ..ListingOptions::default() };
    arrange(&mut files, &options);
    assert_eq!(names_of(&files), vec![".hidden", "b.txt", "a.txt"]);
}

#[test]
fn hidden_entries_are_present_only_with_all() {
    let mut shown = sample_directory();
    arrange(&mut shown, &ListingOptions::default());
    assert!(!names_of(&shown).contains(&".hidden".to_string()));
    let mut everything = sample_directory();
    let options = ListingOptions { all: true, ..ListingOptions::default() };
    arrange(&mut everything, &options);
    assert_eq!(names_of(&everything), vec![".hidden", "a.txt", "b.txt"]);
}

#[test]
fn default_options() {
    let options = ListingOptions::default();
    assert!(!options.all && !options.long && !options.human_readable);
    assert!(!options.recursive && !options.color);
    assert_eq!(options.sort_by, SortBy::Name);
}
