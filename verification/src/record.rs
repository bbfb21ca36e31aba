//! The record kept for one directory entry, and the orders in which a listing
//! of records can be sorted.

use crate::mode::{classify, permissions, CrustFileKind, CrustFilePermissions};
use crate::names::{
    is_dot_entry, lemma_name_le_is_total_order, name_le, name_precedes,
};
use crate::order::{total_preorder, Arrangement};
use vstd::prelude::*;
use vstd::relations::{strongly_connected, transitive};

verus! {

/// What a metadata query reports about one entry.
#[derive(Clone, Copy, Debug, PartialEq, Eq, Structural)]
pub struct RawMetadata {
    /// The mode word: type selector and permission bits.
    pub mode: u32,
    /// Size in bytes.
    pub size: u128,
    /// Numeric id of the owning user.
    pub owner: u32,
    /// Last modification, in seconds since the epoch.
    pub last_modified: i64,
}

/// One resolved directory entry.
#[derive(Clone, Debug, PartialEq, Eq)]
pub struct CrustFileMetadata {
    /// File name
    pub name: String,
    /// File type
    pub kind: CrustFileKind,
    /// File size
    pub size: u128,
    /// File permissions
    pub permissions: CrustFilePermissions,
    /// The UID of the owner
    pub owner: u32,
    /// Epoch timestamp
    pub last_modified: i64,
}

/// A record as a plain value: what `CrustFileMetadata` holds, with the name as
/// a sequence of characters.
pub struct FileEntry {
    pub name: Seq<char>,
    pub kind: CrustFileKind,
    pub size: u128,
    pub permissions: CrustFilePermissions,
    pub owner: u32,
    pub last_modified: i64,
}

impl View for CrustFileMetadata {
    type V = FileEntry;

    open spec fn view(&self) -> FileEntry {
        FileEntry {
            name: self.name@,
            kind: self.kind,
            size: self.size,
            permissions: self.permissions,
            owner: self.owner,
            last_modified: self.last_modified,
        }
    }
}

/// The record that a metadata query gives for an entry of the given name.
pub open spec fn entry_of(name: Seq<char>, raw: RawMetadata) -> FileEntry {
    FileEntry {
        name,
        kind: classify(raw.mode),
        size: raw.size,
        permissions: permissions(raw.mode),
        owner: raw.owner,
        last_modified: raw.last_modified,
    }
}

/// The records of a listing as plain values, in its order.
pub open spec fn listing_view(files: Seq<CrustFileMetadata>) -> Seq<FileEntry> {
    files.map_values(|record: CrustFileMetadata| record@)
}

impl CrustFileMetadata {
    /// A record never stands for one of the synthetic entries `.` and `..`.
    pub open spec fn well_formed(&self) -> bool {
        !is_dot_entry(self.name@)
    }

    /// Builds the record of an entry from its name and the raw values of a
    /// metadata query: the kind is decoded from `kind`, the permissions from
    /// `permissions`, the rest is taken as given.
    pub fn new(
        name: String,
        kind: libc::mode_t,
        size: u128,
        permissions: libc::mode_t,
        owner: u32,
        last_modified: i64,
    ) -> (record: Self)
        requires
            !is_dot_entry(name@),
        ensures
            record.well_formed(),
            record.name == name,
            record.kind == classify(kind),
            record.size == size,
            record.permissions == crate::mode::permissions(permissions),
            record.owner == owner,
            record.last_modified == last_modified,
    {
        CrustFileMetadata {
            name,
            kind: CrustFileKind::from_mode(kind),
            size,
            permissions: CrustFilePermissions::from_mode(permissions),
            owner,
            last_modified,
        }
    }

    /// Builds the record of an entry from its name and what a metadata query
    /// reported for it.
    pub fn from_raw(name: String, raw: RawMetadata) -> (record: Self)
        requires
            !is_dot_entry(name@),
        ensures
            record.well_formed(),
            record.name == name,
            record@ == entry_of(name@, raw),
    {
        CrustFileMetadata::new(name, raw.mode, raw.size, raw.mode, raw.owner, raw.last_modified)
    }
}

/// Every record of a listing is well formed.
pub open spec fn listing_well_formed(files: Seq<CrustFileMetadata>) -> bool {
    forall|i: int| 0 <= i < files.len() ==> (#[trigger] files[i]).well_formed()
}

/// The key by which a listing is sorted. Whatever the key, records that tie on
/// it fall back to name order.
#[derive(Clone, Copy, Debug, PartialEq, Eq, Structural)]
pub enum SortBy {
    /// By name: byte-wise, ascending.
    Name,
    /// By size in bytes, ascending.
    Size,
    /// By modification time, ascending.
    ModifiedTime,
}

/// `a` does not come after `b` when sorting by `by`.
pub open spec fn record_le(by: SortBy, a: CrustFileMetadata, b: CrustFileMetadata) -> bool {
    match by {
        SortBy::Name => name_le(a.name@, b.name@),
        SortBy::Size => a.size < b.size || (a.size == b.size && name_le(a.name@, b.name@)),
        SortBy::ModifiedTime => a.last_modified < b.last_modified || (a.last_modified
            == b.last_modified && name_le(a.name@, b.name@)),
    }
}

/// The order on records for a sort key.
pub open spec fn record_order(by: SortBy) -> spec_fn(CrustFileMetadata, CrustFileMetadata) -> bool {
    |a: CrustFileMetadata, b: CrustFileMetadata| record_le(by, a, b)
}

/// The order on bare names.
pub open spec fn name_order<'a>() -> spec_fn(&'a str, &'a str) -> bool {
    |a: &str, b: &str| name_le(a@, b@)
}

/// Under every sort key the order on records is a total preorder.
pub proof fn lemma_record_order_total(by: SortBy)
    ensures
        total_preorder(record_order(by)),
{
    let le = record_order(by);
    assert forall|x: CrustFileMetadata, y: CrustFileMetadata| #[trigger]
        le(x, y) || #[trigger] le(y, x) by {
        lemma_name_le_is_total_order(x.name@, y.name@, x.name@);
    }
    assert forall|x: CrustFileMetadata, y: CrustFileMetadata, z: CrustFileMetadata| #[trigger]
        le(x, y) && #[trigger] le(y, z) implies le(x, z) by {
        lemma_name_le_is_total_order(x.name@, y.name@, z.name@);
    }
    assert(transitive(le));
    assert(strongly_connected(le));
    reveal(total_preorder);
}

/// The order on bare names is a total preorder.
pub proof fn lemma_name_order_total<'a>()
    ensures
        total_preorder(name_order::<'a>()),
{
    let le = name_order::<'a>();
    assert forall|x: &str, y: &str| #[trigger] le(x, y) || #[trigger] le(y, x) by {
        lemma_name_le_is_total_order(x@, y@, x@);
    }
    assert forall|x: &str, y: &str, z: &str| #[trigger] le(x, y) && #[trigger] le(y, z) implies le(
        x,
        z,
    ) by {
        lemma_name_le_is_total_order(x@, y@, z@);
    }
    assert(transitive(le));
    assert(strongly_connected(le));
    reveal(total_preorder);
}

impl Arrangement<CrustFileMetadata> for SortBy {
    open spec fn relation(&self) -> spec_fn(CrustFileMetadata, CrustFileMetadata) -> bool {
        record_order(*self)
    }

    proof fn lemma_total(&self) {
        lemma_record_order_total(*self);
    }

    fn precedes(&self, a: &CrustFileMetadata, b: &CrustFileMetadata) -> (r: bool) {
        match self {
            SortBy::Name => name_precedes(a.name.as_str(), b.name.as_str()),
            SortBy::Size => a.size < b.size || (a.size == b.size && name_precedes(
                a.name.as_str(),
                b.name.as_str(),
            )),
            SortBy::ModifiedTime => a.last_modified < b.last_modified || (a.last_modified
                == b.last_modified && name_precedes(a.name.as_str(), b.name.as_str())),
        }
    }
}

/// Bare names in byte order.
#[derive(Clone, Copy, Debug, PartialEq, Eq, Structural)]
pub struct NameOrder;

impl<'a> Arrangement<&'a str> for NameOrder {
    open spec fn relation(&self) -> spec_fn(&'a str, &'a str) -> bool {
        name_order()
    }

    proof fn lemma_total(&self) {
        lemma_name_order_total();
    }

    fn precedes(&self, a: &&'a str, b: &&'a str) -> (r: bool) {
        name_precedes(*a, *b)
    }
}

} // verus!
