use crust_ls::layout::{effective_width, layout, Cell, DEFAULT_WIDTH};
use crust_ls::listing::{list, render, short_lines};
use crust_ls::pipeline::ListingOptions;
use crust_ls::record::{CrustFileMetadata, SortBy};
use crust_ls::render::{colour_code, display_names, long_format, long_lines, use_colour};

fn entry(name: &str, mode: u32, size: u128, owner: u32, modified: i64) -> CrustFileMetadata {
    CrustFileMetadata::new(name.to_string(), mode, size, mode, owner, modified)
}

fn cell(text: &str) -> Cell {
    Cell { text: text.to_string(), width: text.chars().count() }
}

#[test]
fn names_are_coloured_by_kind() {
    let files = vec![
        entry("dir", 0o040755, 0, 0, 0),
        entry("link", 0o120777, 0, 0, 0),
        entry("file", 0o100644, 0, 0, 0),
        entry("tty", 0o020620, 0, 0, 0),
        entry("disk", 0o060660, 0, 0, 0),
        entry("pipe", 0o010644, 0, 0, 0),
        entry("sock", 0o140755, 0, 0, 0),
        entry("odd", 0, 0, 0, 0),
    ];
    let names = colour_code(&files);
    assert_eq!(
        names,
        vec![
            "\x1b[34mdir\x1b[0m",
            "\x1b[36mlink\x1b[0m",
            "file",
            "\x1b[33mtty\x1b[0m",
            "\x1b[33mdisk\x1b[0m",
            "\x1b[33mpipe\x1b[0m",
            "\x1b[35msock\x1b[0m",
            "odd",
        ]
    );
}

#[test]
fn plain_names_are_left_as_they_are() {
    let files = vec![entry("dir", 0o040755, 0, 0, 0), entry("file", 0o100644, 0, 0, 0)];
    assert_eq!(display_names(&files, false), vec!["dir", "file"]);
    assert_eq!(display_names(&files, true), colour_code(&files));
    assert!(colour_code(&Vec::new()).is_empty());
}

#[test]
fn colour_needs_request_and_support() {
    assert!(use_colour(true, true));
    assert!(!use_colour(true, false));
    assert!(!use_colour(false, true));
    assert!(!use_colour(false, false));
}

#[test]
fn long_line_has_five_fields() {
    let file = entry("notes.txt", 0o100644, 2000, 1000, 1700000000);
    assert_eq!(long_format(&file, false, false), "rw-r--r-- 1000 2000 2023-11-14T22:13:20Z notes.txt");
    assert_eq!(long_format(&file, true, false), "rw-r--r-- 1000 1.9KB 2023-11-14T22:13:20Z notes.txt");
}

#[test]
fn long_line_with_colour_and_time_before_the_epoch() {
    let dir = entry("src", 0o040755, 4096, 0, -1);
    assert_eq!(long_format(&dir, true, true), "rwxr-xr-x 0 4.0KB 1969-12-31T23:59:59Z \x1b[34msrc\x1b[0m");
    assert_eq!(long_format(&dir, false, false), "rwxr-xr-x 0 4096 1969-12-31T23:59:59Z src");
}

#[test]
fn long_form_has_one_line_per_record() {
    let files = vec![entry("a", 0o100600, 1, 5, 2), entry("b", 0o040700, 0, 6, 3)];
    assert_eq!(long_lines(&files, false, false), vec![
            "rw------- 5 1 1970-01-01T00:00:02Z a",
            "rwx------ 6 0 1970-01-01T00:00:03Z b",
        ]);
    assert!(long_lines(&Vec::new(), true, true).is_empty());
}

#[test]
fn grid_on_a_wide_line_is_one_row() {
    let cells = vec![cell("a"), cell("bb"), cell("ccc")];
    assert_eq!(layout(&cells, 80), vec!["a    bb   ccc"]);
}

#[test]
fn grid_fills_column_by_column() {
    let cells = vec![cell("a"), cell("bb"), cell("ccc")];
    assert_eq!(layout(&cells, 10), vec!["a    ccc", "bb"]);
    let five = vec![cell("1"), cell("2"), cell("3"), cell("4"), cell("5")];
    assert_eq!(layout(&five, 6), vec!["1  4", "2  5", "3"]);
    assert_eq!(layout(&five, 9), vec!["1  3  5", "2  4"]);
}

#[test]
fn grid_on_a_narrow_line_is_one_column() {
    let cells = vec![cell("long-name"), cell("b")];
    assert_eq!(layout(&cells, 4), vec!["long-name", "b"]);
    assert_eq!(layout(&cells, 0), vec!["long-name", "b"]);
}

#[test]
fn grid_of_nothing_has_no_lines() {
    assert!(layout(&Vec::new(), 80).is_empty());
}

#[test]
fn grid_pads_by_shown_width_not_by_text_length() {
    let cells = vec![
        Cell { text: "\x1b[34md\x1b[0m".to_string(), width: 1 },
        Cell { text: "ff".to_string(), width: 2 },
    ];
    assert_eq!(layout(&cells, 80), vec!["\x1b[34md\x1b[0m   ff"]);
}

#[test]
fn width_falls_back_to_the_default() {
    assert_eq!(effective_width(Some(120)), 120);
    assert_eq!(effective_width(None), 80);
    assert_eq!(DEFAULT_WIDTH, 80);
}

#[test]
fn short_form_counts_characters_for_width() {
    let files = vec![entry("é", 0o100644, 0, 0, 0), entry("zz", 0o100644, 0, 0, 0)];
    assert_eq!(short_lines(&files, false, 80), vec!["é   zz"]);
}

#[test]
fn render_chooses_long_or_short_form() {
    let files = vec![entry("a", 0o040755, 1, 2, 3), entry("b", 0o100644, 4, 5, 6)];
    let short = ListingOptions::default();
    assert_eq!(render(&files, &short, true, 80), vec!["a  b"]);
    let long = ListingOptions { long: true, ..ListingOptions::default() };
    assert_eq!(render(&files, &long, true, 80), vec![
            "rwxr-xr-x 2 1 1970-01-01T00:00:03Z a",
            "rw-r--r-- 5 4 1970-01-01T00:00:06Z b",
        ]);
}

#[test]
fn colour_is_skipped_silently_without_support() {
    let files = vec![entry("a", 0o040755, 1, 2, 3)];
    let options = ListingOptions { color: true, ..ListingOptions::default() };
    assert_eq!(render(&files, &options, true, 80), vec!["\x1b[34ma\x1b[0m"]);
    assert_eq!(render(&files, &options, false, 80), vec!["a"]);
}

#[test]
fn whole_pipeline_on_the_sample_directory() {
    let files = vec![
        entry(".hidden", 0o100644, 1, 0, 0),
        entry("b.txt", 0o100644, 10, 0, 0),
        entry("a.txt", 0o100644, 2000, 0, 0),
    ];
    assert_eq!(list(files.clone(), &ListingOptions::default(), false, 80), vec!["a.txt  b.txt"]);
    let by_size = ListingOptions {
        all: true,
        long: true,
        human_readable: true,
        sort_by: SortBy::Size,
        ..ListingOptions::default()
    };
    assert_eq!(
        list(files, &by_size, false, 80),
        vec![
            "rw-r--r-- 0 1.0B 1970-01-01T00:00:00Z .hidden",
            "rw-r--r-- 0 10.0B 1970-01-01T00:00:00Z b.txt",
            "rw-r--r-- 0 1.9KB 1970-01-01T00:00:00Z a.txt",
        ]
    );
}
