//! The transform stages of a listing: the hidden-name filter and the sort,
//! applied in that order.

use crate::names::{hidden, is_hidden, name_le};
use crate::order::{
    lemma_sorted_is_fixed, lemma_stable_sort_idempotent, lemma_stable_sort_ordered,
    lemma_stable_sort_permutes, sort_with, stable_sort,
};
use crate::record::{
    lemma_name_order_total, lemma_record_order_total, listing_well_formed, name_order,
    record_order, CrustFileMetadata, NameOrder, SortBy,
};
use crate::select::{keep_where, lemma_filter_members, Criterion};
use vstd::prelude::*;
use vstd::relations::sorted_by;

verus! {

/// What a caller may ask of a listing.
#[derive(Clone, Copy, Debug, PartialEq, Eq, Structural)]
pub struct ListingOptions {
    /// Show hidden names too.
    pub all: bool,
    /// One detailed line per record.
    pub long: bool,
    /// Sizes scaled to a unit.
    pub human_readable: bool,
    /// Descend into subdirectories.
    pub recursive: bool,
    /// The sort key.
    pub sort_by: SortBy,
    /// Colour names by kind.
    pub color: bool,
}

impl Default for ListingOptions {
    /// Hidden names left out, short form, plain sizes, one directory level,
    /// sorted by name, no colour.
    fn default() -> (options: Self)
        ensures
            !options.all,
            !options.long,
            !options.human_readable,
            !options.recursive,
            options.sort_by == SortBy::Name,
            !options.color,
    {
        ListingOptions {
            all: false,
            long: false,
            human_readable: false,
            recursive: false,
            sort_by: SortBy::Name,
            color: false,
        }
    }
}

/// The bare names that the hidden-name filter keeps.
pub open spec fn visible_name<'a>() -> spec_fn(&'a str) -> bool {
    |name: &str| !is_hidden(name@)
}

/// The records that the hidden-name filter keeps.
pub open spec fn visible_record() -> spec_fn(CrustFileMetadata) -> bool {
    |record: CrustFileMetadata| !is_hidden(record.name@)
}

/// The test of the hidden-name filter: passes what does not begin with a dot.
#[derive(Clone, Copy, Debug, PartialEq, Eq, Structural)]
pub struct Visible;

impl<'a> Criterion<&'a str> for Visible {
    open spec fn accepts(&self) -> spec_fn(&'a str) -> bool {
        visible_name()
    }

    fn decide(&self, item: &&'a str) -> (r: bool) {
        !hidden(*item)
    }
}

impl Criterion<CrustFileMetadata> for Visible {
    open spec fn accepts(&self) -> spec_fn(CrustFileMetadata) -> bool {
        visible_record()
    }

    fn decide(&self, item: &CrustFileMetadata) -> (r: bool) {
        !hidden(item.name.as_str())
    }
}

/// A listing after the filter and sort stages: hidden names dropped unless
/// `all`, then sorted stably by `by`.
pub open spec fn arranged(files: Seq<CrustFileMetadata>, all: bool, by: SortBy) -> Seq<
    CrustFileMetadata,
> {
    stable_sort(
        if all {
            files
        } else {
            files.filter(visible_record())
        },
        record_order(by),
    )
}

/// Sorts bare names byte-wise, ascending. Equal names keep their order.
pub fn sort_filenames<'a>(filenames: &mut Vec<&'a str>)
    ensures
        final(filenames)@ == stable_sort(old(filenames)@, name_order()),
        sorted_by(final(filenames)@, name_order()),
        final(filenames)@.to_multiset() == old(filenames)@.to_multiset(),
        forall|i: int, j: int|
            0 <= i < j < final(filenames)@.len() ==> name_le(
                (#[trigger] final(filenames)@[i])@,
                (#[trigger] final(filenames)@[j])@,
            ),
{
    sort_with(filenames, &NameOrder);
    assert forall|i: int, j: int| 0 <= i < j < filenames@.len() implies name_le(
        (#[trigger] filenames@[i])@,
        (#[trigger] filenames@[j])@,
    ) by {
        assert(name_order()(filenames@[i], filenames@[j]));
    }
}

/// Drops the bare names that begin with a dot; the others stay in their order.
pub fn skip_hidden<'a>(filenames: &mut Vec<&'a str>)
    ensures
        final(filenames)@ == old(filenames)@.filter(visible_name()),
{
    keep_where(filenames, &Visible);
}

/// Drops the records whose name begins with a dot; the others stay in their
/// order.
pub fn skip_hidden_files(files: &mut Vec<CrustFileMetadata>)
    ensures
        final(files)@ == old(files)@.filter(visible_record()),
{
    keep_where(files, &Visible);
}

/// Sorts a listing stably by the given key, ties on the key in name order.
pub fn sort_listing(files: &mut Vec<CrustFileMetadata>, by: SortBy)
    ensures
        final(files)@ == stable_sort(old(files)@, record_order(by)),
        sorted_by(final(files)@, record_order(by)),
        final(files)@.to_multiset() == old(files)@.to_multiset(),
{
    sort_with(files, &by);
}

/// Sorts a listing by size, ascending; records of equal size are in name
/// order.
pub fn sort_file_size(files: &mut Vec<CrustFileMetadata>)
    ensures
        final(files)@ == stable_sort(old(files)@, record_order(SortBy::Size)),
        final(files)@.to_multiset() == old(files)@.to_multiset(),
        forall|i: int, j: int|
            0 <= i < j < final(files)@.len() ==> (#[trigger] final(files)@[i]).size <= (
            #[trigger] final(files)@[j]).size,
        forall|i: int, j: int|
            0 <= i < j < final(files)@.len() && (#[trigger] final(files)@[i]).size == (
            #[trigger] final(files)@[j]).size ==> name_le(
                final(files)@[i].name@,
                final(files)@[j].name@,
            ),
{
    sort_listing(files, SortBy::Size);
    proof {
        lemma_size_order(files@);
    }
}

/// Runs the filter and sort stages on a listing, in that order.
pub fn arrange(files: &mut Vec<CrustFileMetadata>, options: &ListingOptions)
    ensures
        final(files)@ == arranged(old(files)@, options.all, options.sort_by),
        sorted_by(final(files)@, record_order(options.sort_by)),
{
    if !options.all {
        skip_hidden_files(files);
    }
    sort_listing(files, options.sort_by);
}

/// A listing sorted by size has non-decreasing sizes, and records of equal
/// size in name order.
pub proof fn lemma_size_order(files: Seq<CrustFileMetadata>)
    requires
        sorted_by(files, record_order(SortBy::Size)),
    ensures
        forall|i: int, j: int|
            0 <= i < j < files.len() ==> (#[trigger] files[i]).size <= (#[trigger] files[j]).size,
        forall|i: int, j: int|
            0 <= i < j < files.len() && (#[trigger] files[i]).size == (#[trigger] files[j]).size
                ==> name_le(files[i].name@, files[j].name@),
{
    assert forall|i: int, j: int| 0 <= i < j < files.len() implies (#[trigger] files[i]).size <= (
    #[trigger] files[j]).size && (files[i].size == files[j].size ==> name_le(
        files[i].name@,
        files[j].name@,
    )) by {
        assert(record_order(SortBy::Size)(files[i], files[j]));
    }
}

/// Sorting any listing by size gives non-decreasing sizes, with records of
/// equal size in name order.
pub proof fn lemma_sorted_by_size(files: Seq<CrustFileMetadata>)
    ensures
        ({
            let out = stable_sort(files, record_order(SortBy::Size));
            &&& out.to_multiset() == files.to_multiset()
            &&& forall|i: int, j: int|
                0 <= i < j < out.len() ==> (#[trigger] out[i]).size <= (#[trigger] out[j]).size
            &&& forall|i: int, j: int|
                0 <= i < j < out.len() && (#[trigger] out[i]).size == (#[trigger] out[j]).size
                    ==> name_le(out[i].name@, out[j].name@)
        }),
{
    lemma_record_order_total(SortBy::Size);
    lemma_stable_sort_ordered(files, record_order(SortBy::Size));
    lemma_stable_sort_permutes(files, record_order(SortBy::Size));
    lemma_size_order(stable_sort(files, record_order(SortBy::Size)));
}

/// Sorting is idempotent under every key: a listing already in order is left
/// as it is, and so sorting a second time changes nothing.
pub proof fn lemma_sort_idempotent(files: Seq<CrustFileMetadata>, by: SortBy)
    ensures
        sorted_by(files, record_order(by)) ==> stable_sort(files, record_order(by)) == files,
        stable_sort(stable_sort(files, record_order(by)), record_order(by)) == stable_sort(
            files,
            record_order(by),
        ),
{
    lemma_record_order_total(by);
    if sorted_by(files, record_order(by)) {
        lemma_sorted_is_fixed(files, record_order(by));
    }
    lemma_stable_sort_idempotent(files, record_order(by));
}

/// Sorting bare names is idempotent: names already in order are left as they
/// are, and so sorting a second time changes nothing.
pub proof fn lemma_name_sort_idempotent<'a>(names: Seq<&'a str>)
    ensures
        sorted_by(names, name_order()) ==> stable_sort(names, name_order()) == names,
        stable_sort(stable_sort(names, name_order()), name_order()) == stable_sort(
            names,
            name_order(),
        ),
{
    lemma_name_order_total();
    if sorted_by(names, name_order()) {
        lemma_sorted_is_fixed(names, name_order());
    }
    lemma_stable_sort_idempotent(names, name_order());
}

/// Sequences that hold the same elements equally often have the same members.
pub proof fn lemma_same_members<T>(a: Seq<T>, b: Seq<T>, x: T)
    requires
        a.to_multiset() == b.to_multiset(),
    ensures
        a.contains(x) <==> b.contains(x),
{
    a.to_multiset_ensures();
    b.to_multiset_ensures();
    assert(a.contains(x) <==> a.to_multiset().count(x) > 0);
    assert(b.contains(x) <==> b.to_multiset().count(x) > 0);
}

/// What the arranged listing holds: with `all`, every record of the listing;
/// without it, exactly the records whose name does not begin with a dot.
pub proof fn lemma_arranged_members(
    files: Seq<CrustFileMetadata>,
    all: bool,
    by: SortBy,
    record: CrustFileMetadata,
)
    ensures
        arranged(files, true, by).contains(record) <==> files.contains(record),
        arranged(files, false, by).contains(record) <==> files.contains(record) && !is_hidden(
            record.name@,
        ),
{
    let kept = files.filter(visible_record());
    lemma_stable_sort_permutes(files, record_order(by));
    lemma_stable_sort_permutes(kept, record_order(by));
    lemma_same_members(arranged(files, true, by), files, record);
    lemma_same_members(arranged(files, false, by), kept, record);
    lemma_filter_members(files, visible_record(), record);
}

/// The synthetic entries `.` and `..` appear in no arranged listing, with or
/// without `all`, as long as the listing it is made from has none.
pub proof fn lemma_arranged_well_formed(files: Seq<CrustFileMetadata>, all: bool, by: SortBy)
    requires
        listing_well_formed(files),
    ensures
        listing_well_formed(arranged(files, all, by)),
{
    let out = arranged(files, all, by);
    assert forall|i: int| 0 <= i < out.len() implies (#[trigger] out[i]).well_formed() by {
        assert(out.contains(out[i]));
        lemma_arranged_members(files, all, by, out[i]);
        let k = choose|k: int| 0 <= k < files.len() && files[k] == out[i];
        assert(files[k].well_formed());
    }
}

} // verus!
