//! Decoding of POSIX mode words: the file-type selector and the nine
//! permission bits.
//!
//! The bit values are taken from `libc` at run time; each accessor below states
//! the value that `libc` defines for Linux targets, and the decoders are proved
//! against those statements.

use vstd::prelude::*;
use vstd::string::StringExecFns;

verus! {

/// Mask selecting the file-type bits of a mode word.
pub const TYPE_MASK: u32 = 0o170000;

/// Type bits of a named pipe.
pub const TYPE_FIFO: u32 = 0o010000;

/// Type bits of a character device.
pub const TYPE_CHAR_DEVICE: u32 = 0o020000;

/// Type bits of a directory.
pub const TYPE_DIRECTORY: u32 = 0o040000;

/// Type bits of a block device.
pub const TYPE_BLOCK_DEVICE: u32 = 0o060000;

/// Type bits of a regular file.
pub const TYPE_REGULAR: u32 = 0o100000;

/// Type bits of a symbolic link.
pub const TYPE_SYMLINK: u32 = 0o120000;

/// Type bits of a socket.
pub const TYPE_SOCKET: u32 = 0o140000;

/// Owner may read.
pub const OWNER_READ: u32 = 0o400;

/// Owner may write.
pub const OWNER_WRITE: u32 = 0o200;

/// Owner may execute.
pub const OWNER_EXEC: u32 = 0o100;

/// Group may read.
pub const GROUP_READ: u32 = 0o040;

/// Group may write.
pub const GROUP_WRITE: u32 = 0o020;

/// Group may execute.
pub const GROUP_EXEC: u32 = 0o010;

/// Others may read.
pub const OTHERS_READ: u32 = 0o004;

/// Others may write.
pub const OTHERS_WRITE: u32 = 0o002;

/// Others may execute.
pub const OTHERS_EXEC: u32 = 0o001;

/// Reads `libc::S_IFMT`. Trusted: on Linux targets `libc` defines it as `0o170000`.
#[verifier::external_body]
fn s_ifmt() -> (m: libc::mode_t)
    ensures
        m == TYPE_MASK,
{
    libc::S_IFMT
}

/// Reads `libc::S_IFREG`. Trusted: on Linux targets `libc` defines it as `0o100000`.
#[verifier::external_body]
fn s_ifreg() -> (m: libc::mode_t)
    ensures
        m == TYPE_REGULAR,
{
    libc::S_IFREG
}

/// Reads `libc::S_IFDIR`. Trusted: on Linux targets `libc` defines it as `0o040000`.
#[verifier::external_body]
fn s_ifdir() -> (m: libc::mode_t)
    ensures
        m == TYPE_DIRECTORY,
{
    libc::S_IFDIR
}

/// Reads `libc::S_IFLNK`. Trusted: on Linux targets `libc` defines it as `0o120000`.
#[verifier::external_body]
fn s_iflnk() -> (m: libc::mode_t)
    ensures
        m == TYPE_SYMLINK,
{
    libc::S_IFLNK
}

/// Reads `libc::S_IFCHR`. Trusted: on Linux targets `libc` defines it as `0o020000`.
#[verifier::external_body]
fn s_ifchr() -> (m: libc::mode_t)
    ensures
        m == TYPE_CHAR_DEVICE,
{
    libc::S_IFCHR
}

/// Reads `libc::S_IFBLK`. Trusted: on Linux targets `libc` defines it as `0o060000`.
#[verifier::external_body]
fn s_ifblk() -> (m: libc::mode_t)
    ensures
        m == TYPE_BLOCK_DEVICE,
{
    libc::S_IFBLK
}

/// Reads `libc::S_IFIFO`. Trusted: on Linux targets `libc` defines it as `0o010000`.
#[verifier::external_body]
fn s_ififo() -> (m: libc::mode_t)
    ensures
        m == TYPE_FIFO,
{
    libc::S_IFIFO
}

/// Reads `libc::S_IFSOCK`. Trusted: on Linux targets `libc` defines it as `0o140000`.
#[verifier::external_body]
fn s_ifsock() -> (m: libc::mode_t)
    ensures
        m == TYPE_SOCKET,
{
    libc::S_IFSOCK
}

/// Reads `libc::S_IRUSR`. Trusted: on Linux targets `libc` defines it as `0o400`.
#[verifier::external_body]
fn s_irusr() -> (m: libc::mode_t)
    ensures
        m == OWNER_READ,
{
    libc::S_IRUSR
}

/// Reads `libc::S_IWUSR`. Trusted: on Linux targets `libc` defines it as `0o200`.
#[verifier::external_body]
fn s_iwusr() -> (m: libc::mode_t)
    ensures
        m == OWNER_WRITE,
{
    libc::S_IWUSR
}

/// Reads `libc::S_IXUSR`. Trusted: on Linux targets `libc` defines it as `0o100`.
#[verifier::external_body]
fn s_ixusr() -> (m: libc::mode_t)
    ensures
        m == OWNER_EXEC,
{
    libc::S_IXUSR
}

/// Reads `libc::S_IRGRP`. Trusted: on Linux targets `libc` defines it as `0o040`.
#[verifier::external_body]
fn s_irgrp() -> (m: libc::mode_t)
    ensures
        m == GROUP_READ,
{
    libc::S_IRGRP
}

/// Reads `libc::S_IWGRP`. Trusted: on Linux targets `libc` defines it as `0o020`.
#[verifier::external_body]
fn s_iwgrp() -> (m: libc::mode_t)
    ensures
        m == GROUP_WRITE,
{
    libc::S_IWGRP
}

/// Reads `libc::S_IXGRP`. Trusted: on Linux targets `libc` defines it as `0o010`.
#[verifier::external_body]
fn s_ixgrp() -> (m: libc::mode_t)
    ensures
        m == GROUP_EXEC,
{
    libc::S_IXGRP
}

/// Reads `libc::S_IROTH`. Trusted: on Linux targets `libc` defines it as `0o004`.
#[verifier::external_body]
fn s_iroth() -> (m: libc::mode_t)
    ensures
        m == OTHERS_READ,
{
    libc::S_IROTH
}

/// Reads `libc::S_IWOTH`. Trusted: on Linux targets `libc` defines it as `0o002`.
#[verifier::external_body]
fn s_iwoth() -> (m: libc::mode_t)
    ensures
        m == OTHERS_WRITE,
{
    libc::S_IWOTH
}

/// Reads `libc::S_IXOTH`. Trusted: on Linux targets `libc` defines it as `0o001`.
#[verifier::external_body]
fn s_ixoth() -> (m: libc::mode_t)
    ensures
        m == OTHERS_EXEC,
{
    libc::S_IXOTH
}

/// What kind of filesystem object a mode word describes.
#[derive(Clone, Copy, Debug, PartialEq, Eq, Structural)]
pub enum CrustFileKind {
    Regular,
    Directory,
    Symlink,
    CharDevice,
    BlockDevice,
    Fifo,
    Socket,
    Unknown,
}

/// The file-type selector of a mode word.
pub open spec fn type_bits(mode: u32) -> u32 {
    mode & TYPE_MASK
}

/// Whether a type selector is one of the seven known type constants.
pub open spec fn is_known_type(bits: u32) -> bool {
    ||| bits == TYPE_REGULAR
    ||| bits == TYPE_DIRECTORY
    ||| bits == TYPE_SYMLINK
    ||| bits == TYPE_CHAR_DEVICE
    ||| bits == TYPE_BLOCK_DEVICE
    ||| bits == TYPE_FIFO
    ||| bits == TYPE_SOCKET
}

/// The kind that a mode word denotes.
pub open spec fn classify(mode: u32) -> CrustFileKind {
    let bits = type_bits(mode);
    if bits == TYPE_REGULAR {
        CrustFileKind::Regular
    } else if bits == TYPE_DIRECTORY {
        CrustFileKind::Directory
    } else if bits == TYPE_SYMLINK {
        CrustFileKind::Symlink
    } else if bits == TYPE_CHAR_DEVICE {
        CrustFileKind::CharDevice
    } else if bits == TYPE_BLOCK_DEVICE {
        CrustFileKind::BlockDevice
    } else if bits == TYPE_FIFO {
        CrustFileKind::Fifo
    } else if bits == TYPE_SOCKET {
        CrustFileKind::Socket
    } else {
        CrustFileKind::Unknown
    }
}

/// The display label of a kind.
pub open spec fn kind_label(kind: CrustFileKind) -> Seq<char> {
    match kind {
        CrustFileKind::Regular => "Regular File"@,
        CrustFileKind::Directory => "Directory"@,
        CrustFileKind::Symlink => "Symbolic Link"@,
        CrustFileKind::CharDevice => "Character Device"@,
        CrustFileKind::BlockDevice => "Block Device"@,
        CrustFileKind::Fifo => "FIFO (Named Pipe)"@,
        CrustFileKind::Socket => "Socket"@,
        CrustFileKind::Unknown => "Unknown"@,
    }
}

impl CrustFileKind {
    /// Classifies a mode word by its type selector. Total: a selector that is
    /// none of the seven known constants gives `Unknown`, and only such a
    /// selector does.
    pub fn from_mode(mode: libc::mode_t) -> (kind: Self)
        ensures
            kind == classify(mode),
            kind is Unknown <==> !is_known_type(type_bits(mode)),
            kind is Regular <==> type_bits(mode) == TYPE_REGULAR,
            kind is Directory <==> type_bits(mode) == TYPE_DIRECTORY,
            kind is Symlink <==> type_bits(mode) == TYPE_SYMLINK,
            kind is CharDevice <==> type_bits(mode) == TYPE_CHAR_DEVICE,
            kind is BlockDevice <==> type_bits(mode) == TYPE_BLOCK_DEVICE,
            kind is Fifo <==> type_bits(mode) == TYPE_FIFO,
            kind is Socket <==> type_bits(mode) == TYPE_SOCKET,
    {
        let bits: u32 = mode & s_ifmt();
        if bits == s_ifreg() {
            CrustFileKind::Regular
        } else if bits == s_ifdir() {
            CrustFileKind::Directory
        } else if bits == s_iflnk() {
            CrustFileKind::Symlink
        } else if bits == s_ifchr() {
            CrustFileKind::CharDevice
        } else if bits == s_ifblk() {
            CrustFileKind::BlockDevice
        } else if bits == s_ififo() {
            CrustFileKind::Fifo
        } else if bits == s_ifsock() {
            CrustFileKind::Socket
        } else {
            CrustFileKind::Unknown
        }
    }

    /// The fixed display label of this kind.
    pub fn as_str(&self) -> (label: &'static str)
        ensures
            label@ == kind_label(*self),
    {
        match self {
            CrustFileKind::Regular => "Regular File",
            CrustFileKind::Directory => "Directory",
            CrustFileKind::Symlink => "Symbolic Link",
            CrustFileKind::CharDevice => "Character Device",
            CrustFileKind::BlockDevice => "Block Device",
            CrustFileKind::Fifo => "FIFO (Named Pipe)",
            CrustFileKind::Socket => "Socket",
            CrustFileKind::Unknown => "Unknown",
        }
    }
}

/// The nine permission bits of a mode word, one flag each.
#[derive(Clone, Copy, Debug, PartialEq, Eq, Structural)]
pub struct CrustFilePermissions {
    pub owner_read: bool,
    pub owner_write: bool,
    pub owner_exec: bool,
    pub group_read: bool,
    pub group_write: bool,
    pub group_exec: bool,
    pub others_read: bool,
    pub others_write: bool,
    pub others_exec: bool,
}

/// Whether a mode word has any bit of `flag` set.
pub open spec fn has_flag(mode: u32, flag: u32) -> bool {
    mode & flag != 0
}

/// The permission flags that a mode word denotes.
pub open spec fn permissions(mode: u32) -> CrustFilePermissions {
    CrustFilePermissions {
        owner_read: has_flag(mode, OWNER_READ),
        owner_write: has_flag(mode, OWNER_WRITE),
        owner_exec: has_flag(mode, OWNER_EXEC),
        group_read: has_flag(mode, GROUP_READ),
        group_write: has_flag(mode, GROUP_WRITE),
        group_exec: has_flag(mode, GROUP_EXEC),
        others_read: has_flag(mode, OTHERS_READ),
        others_write: has_flag(mode, OTHERS_WRITE),
        others_exec: has_flag(mode, OTHERS_EXEC),
    }
}

/// The character shown for one permission flag: `letter` when set, `-` when not.
pub open spec fn flag_char(set: bool, letter: char) -> char {
    if set {
        letter
    } else {
        '-'
    }
}

/// The nine-character permission text: owner, group, others, each as `rwx`.
pub open spec fn permission_text(p: CrustFilePermissions) -> Seq<char> {
    Seq::<char>::empty().push(flag_char(p.owner_read, 'r')).push(
        flag_char(p.owner_write, 'w'),
    ).push(flag_char(p.owner_exec, 'x')).push(flag_char(p.group_read, 'r')).push(
        flag_char(p.group_write, 'w'),
    ).push(flag_char(p.group_exec, 'x')).push(flag_char(p.others_read, 'r')).push(
        flag_char(p.others_write, 'w'),
    ).push(flag_char(p.others_exec, 'x'))
}

/// Appends the character for one permission flag to `out`.
fn push_flag(out: &mut String, set: bool, letter: &'static str)
    requires
        letter@.len() == 1,
    ensures
        final(out)@ == old(out)@.push(flag_char(set, letter@[0])),
{
    if set {
        out.append(letter);
        assert(out@ =~= old(out)@.push(letter@[0]));
    } else {
        proof {
            reveal_strlit("-");
        }
        out.append("-");
        assert(out@ =~= old(out)@.push('-'));
    }
}

impl CrustFilePermissions {
    /// Decodes the nine permission bits of a mode word, each on its own.
    pub fn from_mode(mode: libc::mode_t) -> (p: Self)
        ensures
            p == permissions(mode),
    {
        CrustFilePermissions {
            owner_read: mode & s_irusr() != 0,
            owner_write: mode & s_iwusr() != 0,
            owner_exec: mode & s_ixusr() != 0,
            group_read: mode & s_irgrp() != 0,
            group_write: mode & s_iwgrp() != 0,
            group_exec: mode & s_ixgrp() != 0,
            others_read: mode & s_iroth() != 0,
            others_write: mode & s_iwoth() != 0,
            others_exec: mode & s_ixoth() != 0,
        }
    }

    /// Renders the flags as the conventional nine-character text.
    pub fn as_string(&self) -> (text: String)
        ensures
            text@ == permission_text(*self),
    {
        proof {
            reveal_strlit("r");
            reveal_strlit("w");
            reveal_strlit("x");
        }
        let mut text = String::new();
        push_flag(&mut text, self.owner_read, "r");
        push_flag(&mut text, self.owner_write, "w");
        push_flag(&mut text, self.owner_exec, "x");
        push_flag(&mut text, self.group_read, "r");
        push_flag(&mut text, self.group_write, "w");
        push_flag(&mut text, self.group_exec, "x");
        push_flag(&mut text, self.others_read, "r");
        push_flag(&mut text, self.others_write, "w");
        push_flag(&mut text, self.others_exec, "x");
        text
    }
}

/// Every permission text has nine characters, with `r` or `-` at the first
/// place of each triple, `w` or `-` at the second and `x` or `-` at the third.
pub proof fn lemma_permission_text_grammar(p: CrustFilePermissions)
    ensures
        permission_text(p).len() == 9,
        forall|i: int|
            0 <= i < 9 && i % 3 == 0 ==> (#[trigger] permission_text(p)[i] == 'r'
                || permission_text(p)[i] == '-'),
        forall|i: int|
            0 <= i < 9 && i % 3 == 1 ==> (#[trigger] permission_text(p)[i] == 'w'
                || permission_text(p)[i] == '-'),
        forall|i: int|
            0 <= i < 9 && i % 3 == 2 ==> (#[trigger] permission_text(p)[i] == 'x'
                || permission_text(p)[i] == '-'),
{
}

/// The permission text of any mode word follows the positional grammar, and
/// shows a letter exactly where the mode word has the matching bit.
pub proof fn lemma_mode_text_grammar(mode: u32)
    ensures
        permission_text(permissions(mode)).len() == 9,
        forall|i: int|
            0 <= i < 9 && i % 3 == 0 ==> (#[trigger] permission_text(permissions(mode))[i] == 'r'
                || permission_text(permissions(mode))[i] == '-'),
        forall|i: int|
            0 <= i < 9 && i % 3 == 1 ==> (#[trigger] permission_text(permissions(mode))[i] == 'w'
                || permission_text(permissions(mode))[i] == '-'),
        forall|i: int|
            0 <= i < 9 && i % 3 == 2 ==> (#[trigger] permission_text(permissions(mode))[i] == 'x'
                || permission_text(permissions(mode))[i] == '-'),
        permission_text(permissions(mode))[0] == 'r' <==> has_flag(mode, OWNER_READ),
        permission_text(permissions(mode))[1] == 'w' <==> has_flag(mode, OWNER_WRITE),
        permission_text(permissions(mode))[2] == 'x' <==> has_flag(mode, OWNER_EXEC),
        permission_text(permissions(mode))[3] == 'r' <==> has_flag(mode, GROUP_READ),
        permission_text(permissions(mode))[4] == 'w' <==> has_flag(mode, GROUP_WRITE),
        permission_text(permissions(mode))[5] == 'x' <==> has_flag(mode, GROUP_EXEC),
        permission_text(permissions(mode))[6] == 'r' <==> has_flag(mode, OTHERS_READ),
        permission_text(permissions(mode))[7] == 'w' <==> has_flag(mode, OTHERS_WRITE),
        permission_text(permissions(mode))[8] == 'x' <==> has_flag(mode, OTHERS_EXEC),
{
    lemma_permission_text_grammar(permissions(mode));
}

/// Classification is total and exclusive: every mode word has exactly the kind
/// that its type selector names, and `Unknown` exactly when the selector is
/// none of the seven known constants.
pub proof fn lemma_classify_unknown(mode: u32)
    ensures
        classify(mode) is Unknown <==> !is_known_type(type_bits(mode)),
        classify(mode) is Regular <==> type_bits(mode) == TYPE_REGULAR,
        classify(mode) is Directory <==> type_bits(mode) == TYPE_DIRECTORY,
        classify(mode) is Symlink <==> type_bits(mode) == TYPE_SYMLINK,
        classify(mode) is CharDevice <==> type_bits(mode) == TYPE_CHAR_DEVICE,
        classify(mode) is BlockDevice <==> type_bits(mode) == TYPE_BLOCK_DEVICE,
        classify(mode) is Fifo <==> type_bits(mode) == TYPE_FIFO,
        classify(mode) is Socket <==> type_bits(mode) == TYPE_SOCKET,
{
}

} // verus!
