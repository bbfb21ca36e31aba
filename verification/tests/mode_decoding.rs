use crust_ls::mode::{CrustFileKind, CrustFilePermissions};

#[test]
fn classifies_each_known_type() {
    assert_eq!(CrustFileKind::from_mode(0o100644), CrustFileKind::Regular);
    assert_eq!(CrustFileKind::from_mode(0o040755), CrustFileKind::Directory);
    assert_eq!(CrustFileKind::from_mode(0o120777), CrustFileKind::Symlink);
    assert_eq!(CrustFileKind::from_mode(0o020620), CrustFileKind::CharDevice);
    assert_eq!(CrustFileKind::from_mode(0o060660), CrustFileKind::BlockDevice);
    assert_eq!(CrustFileKind::from_mode(0o010644), CrustFileKind::Fifo);
    assert_eq!(CrustFileKind::from_mode(0o140755), CrustFileKind::Socket);
}

#[test]
fn unmatched_type_bits_are_unknown() {
    assert_eq!(CrustFileKind::from_mode(0), CrustFileKind::Unknown);
    assert_eq!(CrustFileKind::from_mode(0o000777), CrustFileKind::Unknown);
    assert_eq!(CrustFileKind::from_mode(0o030000), CrustFileKind::Unknown);
    assert_eq!(CrustFileKind::from_mode(0o050000), CrustFileKind::Unknown);
    assert_eq!(CrustFileKind::from_mode(0o070000), CrustFileKind::Unknown);
    assert_eq!(CrustFileKind::from_mode(0o110000), CrustFileKind::Unknown);
    assert_eq!(CrustFileKind::from_mode(0o130000), CrustFileKind::Unknown);
    assert_eq!(CrustFileKind::from_mode(0o150000), CrustFileKind::Unknown);
    assert_eq!(CrustFileKind::from_mode(0o160000), CrustFileKind::Unknown);
    assert_eq!(CrustFileKind::from_mode(0o170000), CrustFileKind::Unknown);
}

#[test]
fn classification_ignores_bits_outside_the_selector() {
    assert_eq!(CrustFileKind::from_mode(0o100000), CrustFileKind::Regular);
    assert_eq!(CrustFileKind::from_mode(0o107777), CrustFileKind::Regular);
    assert_eq!(CrustFileKind::from_mode(0o100000 | 0xffe0_0000), CrustFileKind::Regular);
}

#[test]
fn labels_are_the_fixed_table() {
    assert_eq!(CrustFileKind::Regular.as_str(), "Regular File");
    assert_eq!(CrustFileKind::Directory.as_str(), "Directory");
    assert_eq!(CrustFileKind::Symlink.as_str(), "Symbolic Link");
    assert_eq!(CrustFileKind::CharDevice.as_str(), "Character Device");
    assert_eq!(CrustFileKind::BlockDevice.as_str(), "Block Device");
    assert_eq!(CrustFileKind::Fifo.as_str(), "FIFO (Named Pipe)");
    assert_eq!(CrustFileKind::Socket.as_str(), "Socket");
    assert_eq!(CrustFileKind::Unknown.as_str(), "Unknown");
}

#[test]
fn permissions_decode_each_bit_on_its_own() {
    let p = CrustFilePermissions::from_mode(0o640);
    assert!(p.owner_read && p.owner_write && !p.owner_exec);
    assert!(p.group_read && !p.group_write && !p.group_exec);
    assert!(!p.others_read && !p.others_write && !p.others_exec);
    let q = CrustFilePermissions::from_mode(0o001);
    assert!(q.others_exec);
    assert!(!q.owner_read && !q.owner_write && !q.owner_exec);
    assert!(!q.group_read && !q.group_write && !q.group_exec);
    assert!(!q.others_read && !q.others_write);
}

#[test]
fn permission_text_matches_long_listing_convention() {
    assert_eq!(CrustFilePermissions::from_mode(0o100644).as_string(), "rw-r--r--");
    assert_eq!(CrustFilePermissions::from_mode(0o040755).as_string(), "rwxr-xr-x");
    assert_eq!(CrustFilePermissions::from_mode(0o777).as_string(), "rwxrwxrwx");
    assert_eq!(CrustFilePermissions::from_mode(0).as_string(), "---------");
    assert_eq!(CrustFilePermissions::from_mode(0o124).as_string(), "--x-w-r--");
}

#[test]
fn permission_text_obeys_positional_grammar_for_every_permission_word() {
    let mut mode: u32 = 0;
    while mode < 0o1000 {
        let text = CrustFilePermissions::from_mode(mode).as_string();
        let chars: Vec<char> = text.chars().collect();
        assert_eq!(chars.len(), 9);
        let mut i = 0;
        while i < 9 {
            let letter = match i % 3 {
                0 => 'r',
                1 => 'w',
                _ => 'x',
            };
            let bit = 1u32 << (8 - i);
            if mode & bit != 0 {
                assert_eq!(chars[i], letter);
            } else {
                assert_eq!(chars[i], '-');
            }
            i += 1;
        }
        mode += 1;
    }
}
