use crust_ls::names::{bytes_precede, dot_entry, hidden, name_precedes};

#[test]
fn shorter_prefix_comes_first() {
    assert!(name_precedes("a", "ab"));
    assert!(!name_precedes("ab", "a"));
    assert!(name_precedes("", "a"));
    assert!(name_precedes("", ""));
}

#[test]
fn first_differing_byte_decides() {
    assert!(name_precedes("a.txt", "b.txt"));
    assert!(!name_precedes("b.txt", "a.txt"));
    assert!(name_precedes("abc", "abd"));
    assert!(name_precedes("abz", "ac"));
}

#[test]
fn name_order_is_byte_wise_not_alphabetical() {
    assert!(name_precedes("Z", "a"));
    assert!(!name_precedes("a", "Z"));
    assert!(name_precedes(".hidden", "a"));
    assert!(name_precedes("file10", "file2"));
}

#[test]
fn equal_names_precede_each_other() {
    assert!(name_precedes("same", "same"));
    assert!(bytes_precede(&[1, 2, 3], &[1, 2, 3]));
}

#[test]
fn multi_byte_names_compare_by_encoded_bytes() {
    assert!(name_precedes("z", "é"));
    assert!(!name_precedes("é", "z"));
    assert!(name_precedes("é", "日本"));
    assert_eq!(name_precedes("é", "日本"), "é" <= "日本");
}

#[test]
fn bytes_compare_unsigned() {
    assert!(bytes_precede(&[0x7f], &[0x80]));
    assert!(!bytes_precede(&[0xff], &[0x00, 0x01]));
    assert!(bytes_precede(&[], &[0]));
}

#[test]
fn name_order_agrees_with_str_order_on_samples() {
    let samples = ["", ".", "..", ".a", "A", "a", "a.txt", "ab", "b", "é", "日本", "~"];
    for a in samples.iter() {
        for b in samples.iter() {
            assert_eq!(name_precedes(a, b), a <= b);
        }
    }
}

#[test]
fn hidden_names_begin_with_a_dot() {
    assert!(hidden(".hidden"));
    assert!(hidden("."));
    assert!(hidden(".."));
    assert!(hidden(".a.txt"));
    assert!(!hidden("a.txt"));
    assert!(!hidden("a.b"));
    assert!(!hidden(""));
    assert!(!hidden("é."));
}

#[test]
fn only_dot_and_dot_dot_are_synthetic_entries() {
    assert!(dot_entry("."));
    assert!(dot_entry(".."));
    assert!(!dot_entry("..."));
    assert!(!dot_entry(".a"));
    assert!(!dot_entry("a."));
    assert!(!dot_entry(""));
    assert!(!dot_entry("a"));
    assert!(!dot_entry(".é"));
}
