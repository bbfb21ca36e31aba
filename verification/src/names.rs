//! Entry names: the byte-wise order used for sorting, and the tests for
//! hidden names and for the two synthetic entries `.` and `..`.

use vstd::prelude::*;
use vstd::string::{StrSliceExecFns, StringSliceAdditionalSpecFns};
use vstd::utf8::{decode_utf8, encode_utf8, encode_utf8_decode_utf8};

verus! {

/// The bytes of a name: its UTF-8 encoding.
pub open spec fn name_bytes(name: Seq<char>) -> Seq<u8> {
    encode_utf8(name)
}

/// Lexicographic comparison of `a` and `b` from index `i` on, given that they
/// agree before `i`: at the first index where they differ the smaller byte
/// decides, and a sequence that ends first comes first.
pub open spec fn bytes_le_from(a: Seq<u8>, b: Seq<u8>, i: int) -> bool
    decreases a.len() - i,
{
    if i >= a.len() {
        true
    } else if i >= b.len() {
        false
    } else if a[i] != b[i] {
        a[i] < b[i]
    } else {
        bytes_le_from(a, b, i + 1)
    }
}

/// `a` does not come after `b` in lexicographic byte order.
pub open spec fn bytes_le(a: Seq<u8>, b: Seq<u8>) -> bool {
    bytes_le_from(a, b, 0)
}

/// `a` does not come after `b` in name order: byte-wise, ascending.
pub open spec fn name_le(a: Seq<char>, b: Seq<char>) -> bool {
    bytes_le(name_bytes(a), name_bytes(b))
}

/// A name is hidden when it begins with a dot.
pub open spec fn is_hidden(name: Seq<char>) -> bool {
    name.len() > 0 && name[0] == '.'
}

/// The two synthetic entries that every directory holds: `.` and `..`.
pub open spec fn is_dot_entry(name: Seq<char>) -> bool {
    ||| (name.len() == 1 && name[0] == '.')
    ||| (name.len() == 2 && name[0] == '.' && name[1] == '.')
}

/// Any two byte sequences compare one way or the other.
pub proof fn lemma_bytes_le_total(a: Seq<u8>, b: Seq<u8>, i: int)
    requires
        0 <= i,
    ensures
        bytes_le_from(a, b, i) || bytes_le_from(b, a, i),
    decreases a.len() - i,
{
    if i < a.len() && i < b.len() && a[i] == b[i] {
        lemma_bytes_le_total(a, b, i + 1);
    }
}

/// Byte order chains.
pub proof fn lemma_bytes_le_chain(a: Seq<u8>, b: Seq<u8>, c: Seq<u8>, i: int)
    requires
        0 <= i,
        bytes_le_from(a, b, i),
        bytes_le_from(b, c, i),
    ensures
        bytes_le_from(a, c, i),
    decreases a.len() - i,
{
    if i < a.len() && a[i] == b[i] && b[i] == c[i] {
        lemma_bytes_le_chain(a, b, c, i + 1);
    }
}

/// Two byte sequences that agree before `i` and compare both ways from `i`
/// on are the same sequence.
pub proof fn lemma_bytes_le_antisymmetric(a: Seq<u8>, b: Seq<u8>, i: int)
    requires
        0 <= i <= a.len(),
        i <= b.len(),
        a.take(i) == b.take(i),
        bytes_le_from(a, b, i),
        bytes_le_from(b, a, i),
    ensures
        a == b,
    decreases a.len() - i,
{
    if i < a.len() {
        assert(a.take(i + 1) =~= a.take(i).push(a[i]));
        assert(b.take(i + 1) =~= b.take(i).push(b[i]));
        lemma_bytes_le_antisymmetric(a, b, i + 1);
    } else {
        assert(a.take(i) =~= a);
        assert(b.take(i) =~= b);
    }
}

/// `a` does not come after `b` exactly when `a` is a prefix of `b`, or the two
/// differ first at an index where `a` has the smaller byte.
pub proof fn lemma_bytes_le_first_difference(a: Seq<u8>, b: Seq<u8>)
    ensures
        bytes_le(a, b) <==> (a.is_prefix_of(b) || exists|k: int|
            0 <= k < a.len() && k < b.len() && a.take(k) == b.take(k) && #[trigger] a[k] < b[k]),
{
    assert(a.take(0) =~= b.take(0));
    lemma_first_difference_from(a, b, 0);
}

proof fn lemma_first_difference_from(a: Seq<u8>, b: Seq<u8>, i: int)
    requires
        0 <= i <= a.len(),
        i <= b.len(),
        a.take(i) == b.take(i),
    ensures
        bytes_le_from(a, b, i) <==> (a.is_prefix_of(b) || exists|k: int|
            0 <= k < a.len() && k < b.len() && a.take(k) == b.take(k) && #[trigger] a[k] < b[k]),
    decreases a.len() - i,
{
    let by_difference = exists|k: int|
        0 <= k < a.len() && k < b.len() && a.take(k) == b.take(k) && #[trigger] a[k] < b[k];
    if i >= a.len() {
        assert(a.take(i) =~= a);
        assert(a.is_prefix_of(b)) by {
            assert(a =~= b.subrange(0, a.len() as int));
        }
    } else if i >= b.len() {
        assert(b.take(i) =~= b);
        assert(!a.is_prefix_of(b));
        assert(!by_difference) by {
            if by_difference {
                let k = choose|k: int|
                    0 <= k < a.len() && k < b.len() && a.take(k) == b.take(k) && #[trigger] a[k]
                        < b[k];
                assert(a.take(i)[k] == a[k] && b.take(i)[k] == b[k]);
            }
        }
    } else if a[i] != b[i] {
        assert(!a.is_prefix_of(b)) by {
            if a.is_prefix_of(b) {
                assert(b.subrange(0, a.len() as int)[i] == b[i]);
            }
        }
        if a[i] < b[i] {
            assert(by_difference);
        } else {
            assert(!by_difference) by {
                if by_difference {
                    let k = choose|k: int|
                        0 <= k < a.len() && k < b.len() && a.take(k) == b.take(k)
                            && #[trigger] a[k] < b[k];
                    if k < i {
                        assert(a.take(i)[k] == a[k] && b.take(i)[k] == b[k]);
                    } else if k > i {
                        assert(a.take(k)[i] == a[i] && b.take(k)[i] == b[i]);
                    }
                }
            }
        }
    } else {
        assert(a.take(i + 1) =~= a.take(i).push(a[i]));
        assert(b.take(i + 1) =~= b.take(i).push(b[i]));
        lemma_first_difference_from(a, b, i + 1);
    }
}

/// Names with the same bytes are the same name.
pub proof fn lemma_name_bytes_injective(a: Seq<char>, b: Seq<char>)
    requires
        name_bytes(a) == name_bytes(b),
    ensures
        a == b,
{
    encode_utf8_decode_utf8(a);
    encode_utf8_decode_utf8(b);
    assert(decode_utf8(encode_utf8(a)) == a);
    assert(decode_utf8(encode_utf8(b)) == b);
}

/// Name order is reflexive and total, it chains, and names that compare both
/// ways are the same name.
pub proof fn lemma_name_le_is_total_order(a: Seq<char>, b: Seq<char>, c: Seq<char>)
    ensures
        name_le(a, a),
        name_le(a, b) || name_le(b, a),
        name_le(a, b) && name_le(b, c) ==> name_le(a, c),
        name_le(a, b) && name_le(b, a) ==> a == b,
{
    lemma_bytes_le_total(name_bytes(a), name_bytes(a), 0);
    lemma_bytes_le_total(name_bytes(a), name_bytes(b), 0);
    if name_le(a, b) && name_le(b, c) {
        lemma_bytes_le_chain(name_bytes(a), name_bytes(b), name_bytes(c), 0);
    }
    if name_le(a, b) && name_le(b, a) {
        assert(name_bytes(a).take(0) =~= name_bytes(b).take(0));
        lemma_bytes_le_antisymmetric(name_bytes(a), name_bytes(b), 0);
        lemma_name_bytes_injective(a, b);
    }
}

/// Decides byte order on two slices.
pub fn bytes_precede(a: &[u8], b: &[u8]) -> (r: bool)
    ensures
        r == bytes_le(a@, b@),
{
    let mut i: usize = 0;
    while i < a.len() && i < b.len() && a[i] == b[i]
        invariant
            i <= a.len(),
            i <= b.len(),
            bytes_le(a@, b@) == bytes_le_from(a@, b@, i as int),
        decreases a.len() - i,
    {
        i += 1;
    }
    if i >= a.len() {
        true
    } else if i >= b.len() {
        false
    } else {
        a[i] < b[i]
    }
}

/// Decides name order on two names.
pub fn name_precedes(a: &str, b: &str) -> (r: bool)
    ensures
        r == name_le(a@, b@),
{
    bytes_precede(a.as_bytes(), b.as_bytes())
}

/// Decides whether a name is hidden.
pub fn hidden(name: &str) -> (r: bool)
    ensures
        r == is_hidden(name@),
{
    !name.is_empty() && name.get_char(0) == '.'
}

/// Decides whether a name is one of the two synthetic entries.
pub fn dot_entry(name: &str) -> (r: bool)
    ensures
        r == is_dot_entry(name@),
{
    let n = name.unicode_len();
    if n == 1 {
        name.get_char(0) == '.'
    } else if n == 2 {
        name.get_char(0) == '.' && name.get_char(1) == '.'
    } else {
        false
    }
}

/// The synthetic entries are hidden names, so no listing that hides hidden
/// names shows them.
pub proof fn lemma_dot_entries_are_hidden(name: Seq<char>)
    requires
        is_dot_entry(name),
    ensures
        is_hidden(name),
{
}

} // verus!
