//! Stable sorting under a total preorder: what the sorted form of a sequence
//! is, the laws it obeys, and an executable sort proved to compute it.

use crate::select::{drain_reversed, lemma_filter_members};
use vstd::prelude::*;
use vstd::relations::{sorted_by, strongly_connected, transitive};

verus! {

/// A relation under which any two values compare and comparisons chain.
/// Distinct values may compare equal both ways.
#[verifier::opaque]
pub open spec fn total_preorder<T>(le: spec_fn(T, T) -> bool) -> bool {
    &&& transitive(le)
    &&& strongly_connected(le)
}

/// Where `x` goes in `s` so that it follows every element that does not come
/// after it: just behind the last element `e` with `le(e, x)`.
pub open spec fn insert_point<T>(s: Seq<T>, x: T, le: spec_fn(T, T) -> bool) -> int
    decreases s.len(),
{
    if s.len() == 0 {
        0
    } else if le(s.last(), x) {
        s.len() as int
    } else {
        insert_point(s.drop_last(), x, le)
    }
}

/// `s` with `x` placed at its insert point.
pub open spec fn insert_ordered<T>(s: Seq<T>, x: T, le: spec_fn(T, T) -> bool) -> Seq<T> {
    s.insert(insert_point(s, x, le), x)
}

/// The stable sorted form of `s`: its elements in `le` order, elements that
/// compare equal both ways kept in the order in which `s` has them.
pub open spec fn stable_sort<T>(s: Seq<T>, le: spec_fn(T, T) -> bool) -> Seq<T>
    decreases s.len(),
{
    if s.len() == 0 {
        s
    } else {
        insert_ordered(stable_sort(s.drop_last(), le), s.last(), le)
    }
}

/// The insert point lies within the sequence, directly behind an element that
/// does not come after `x`, and before every element that does.
pub proof fn lemma_insert_point<T>(s: Seq<T>, x: T, le: spec_fn(T, T) -> bool)
    ensures
        0 <= insert_point(s, x, le) <= s.len(),
        insert_point(s, x, le) > 0 ==> le(s[insert_point(s, x, le) - 1], x),
        forall|j: int| insert_point(s, x, le) <= j < s.len() ==> !le(#[trigger] s[j], x),
    decreases s.len(),
{
    if s.len() > 0 && !le(s.last(), x) {
        let front = s.drop_last();
        lemma_insert_point(front, x, le);
        assert forall|j: int| insert_point(s, x, le) <= j < s.len() implies !le(
            #[trigger] s[j],
            x,
        ) by {
            if j < front.len() {
                assert(s[j] == front[j]);
            }
        }
    }
}

/// Comparisons under a total preorder chain.
pub proof fn lemma_chain<T>(le: spec_fn(T, T) -> bool, a: T, b: T, c: T)
    requires
        total_preorder(le),
        le(a, b),
        le(b, c),
    ensures
        le(a, c),
{
    reveal(total_preorder);
}

/// Under a total preorder any two values compare one way or the other.
pub proof fn lemma_either<T>(le: spec_fn(T, T) -> bool, a: T, b: T)
    requires
        total_preorder(le),
    ensures
        le(a, b) || le(b, a),
{
    reveal(total_preorder);
}

/// In a sorted sequence the insert point of `x` parts the elements that do not
/// come after `x` from those that do.
pub proof fn lemma_insert_point_parts<T>(s: Seq<T>, x: T, le: spec_fn(T, T) -> bool)
    requires
        total_preorder(le),
        sorted_by(s, le),
    ensures
        0 <= insert_point(s, x, le) <= s.len(),
        forall|i: int| 0 <= i < insert_point(s, x, le) ==> le(#[trigger] s[i], x),
        forall|j: int|
            insert_point(s, x, le) <= j < s.len() ==> le(x, #[trigger] s[j]) && !le(s[j], x),
{
    let p = insert_point(s, x, le);
    lemma_insert_point(s, x, le);
    assert forall|i: int| 0 <= i < p implies le(#[trigger] s[i], x) by {
        if i < p - 1 {
            assert(le(s[i], s[p - 1]));
            lemma_chain(le, s[i], s[p - 1], x);
        }
    }
    assert forall|j: int| p <= j < s.len() implies le(x, #[trigger] s[j]) && !le(s[j], x) by {
        lemma_either(le, x, s[j]);
    }
}

/// Placing a value at its insert point keeps a sorted sequence sorted.
pub proof fn lemma_insert_keeps_order<T>(s: Seq<T>, x: T, le: spec_fn(T, T) -> bool)
    requires
        total_preorder(le),
        sorted_by(s, le),
    ensures
        sorted_by(insert_ordered(s, x, le), le),
{
    let p = insert_point(s, x, le);
    let r = insert_ordered(s, x, le);
    lemma_insert_point_parts(s, x, le);
    s.insert_ensures(p, x);
    assert forall|i: int, j: int| 0 <= i < j < r.len() implies #[trigger] le(r[i], r[j]) by {
        if j < p {
            assert(r[i] == s[i] && r[j] == s[j]);
        } else if j == p {
            assert(r[i] == s[i] && r[j] == x);
        } else if i < p {
            assert(r[i] == s[i] && r[j] == s[j - 1]);
            lemma_chain(le, s[i], x, s[j - 1]);
        } else if i == p {
            assert(r[i] == x && r[j] == s[j - 1]);
        } else {
            assert(r[i] == s[i - 1] && r[j] == s[j - 1]);
        }
    }
}

/// Inserting a value adds exactly that value to what the sequence holds.
pub proof fn lemma_insert_adds_one<T>(s: Seq<T>, p: int, x: T)
    requires
        0 <= p <= s.len(),
    ensures
        s.insert(p, x).to_multiset() == s.to_multiset().insert(x),
{
    let r = s.insert(p, x);
    s.insert_ensures(p, x);
    assert(r.remove(p) =~= s);
    vstd::seq_lib::to_multiset_remove(r, p);
    r.to_multiset_ensures();
    assert(r.contains(x)) by {
        assert(r[p] == x);
    }
    assert(r.to_multiset() =~= s.to_multiset().insert(x));
}

/// The sorted form is in order.
pub proof fn lemma_stable_sort_ordered<T>(s: Seq<T>, le: spec_fn(T, T) -> bool)
    requires
        total_preorder(le),
    ensures
        sorted_by(stable_sort(s, le), le),
    decreases s.len(),
{
    if s.len() > 0 {
        lemma_stable_sort_ordered(s.drop_last(), le);
        lemma_insert_keeps_order(stable_sort(s.drop_last(), le), s.last(), le);
    }
}

/// The sorted form holds the same elements, each as often as the sequence does.
pub proof fn lemma_stable_sort_permutes<T>(s: Seq<T>, le: spec_fn(T, T) -> bool)
    ensures
        stable_sort(s, le).to_multiset() == s.to_multiset(),
    decreases s.len(),
{
    if s.len() > 0 {
        let t = stable_sort(s.drop_last(), le);
        lemma_stable_sort_permutes(s.drop_last(), le);
        lemma_insert_point(t, s.last(), le);
        lemma_insert_adds_one(t, insert_point(t, s.last(), le), s.last());
        assert(s.drop_last().push(s.last()) =~= s);
        vstd::seq_lib::to_multiset_build(s.drop_last(), s.last());
    }
}

/// A sequence that is already in order is its own sorted form.
pub proof fn lemma_sorted_is_fixed<T>(s: Seq<T>, le: spec_fn(T, T) -> bool)
    requires
        sorted_by(s, le),
    ensures
        stable_sort(s, le) == s,
    decreases s.len(),
{
    if s.len() > 0 {
        let front = s.drop_last();
        assert(sorted_by(front, le)) by {
            assert forall|i: int, j: int| 0 <= i < j < front.len() implies #[trigger] le(
                front[i],
                front[j],
            ) by {
                assert(front[i] == s[i] && front[j] == s[j]);
            }
        }
        lemma_sorted_is_fixed(front, le);
        if front.len() > 0 {
            assert(front.last() == s[s.len() - 2]);
            assert(le(s[s.len() - 2], s[s.len() - 1]));
        }
        assert(insert_point(front, s.last(), le) == front.len());
        assert(front.insert(front.len() as int, s.last()) =~= s);
    }
}

/// The values that compare equal to `x` both ways.
pub open spec fn tied_with<T>(le: spec_fn(T, T) -> bool, x: T) -> spec_fn(T) -> bool {
    |y: T| le(x, y) && le(y, x)
}

/// Sorting is stable: the elements that tie with any given value come out in
/// the order in which they went in.
pub proof fn lemma_stable_sort_keeps_ties<T>(s: Seq<T>, le: spec_fn(T, T) -> bool, x: T)
    requires
        total_preorder(le),
    ensures
        stable_sort(s, le).filter(tied_with(le, x)) == s.filter(tied_with(le, x)),
    decreases s.len(),
{
    if s.len() > 0 {
        let front = s.drop_last();
        let last = s.last();
        let t = stable_sort(front, le);
        let tie = tied_with(le, x);
        let p = insert_point(t, last, le);
        let head = t.take(p);
        let tail = t.skip(p);
        lemma_stable_sort_keeps_ties(front, le, x);
        lemma_stable_sort_ordered(front, le);
        lemma_insert_point_parts(t, last, le);
        assert(t =~= head + tail);
        assert(t.insert(p, last) =~= head.push(last) + tail);
        Seq::filter_distributes_over_add(head, tail, tie);
        Seq::filter_distributes_over_add(head.push(last), tail, tie);
        assert(head.push(last).drop_last() =~= head);
        assert(head.push(last).filter(tie) == if tie(last) {
            head.filter(tie).push(last)
        } else {
            head.filter(tie)
        }) by {
            reveal(Seq::filter);
        }
        assert(s.filter(tie) == if tie(last) {
            front.filter(tie).push(last)
        } else {
            front.filter(tie)
        }) by {
            reveal(Seq::filter);
        }
        if tie(last) {
            let rest = tail.filter(tie);
            if rest.len() > 0 {
                let y = rest[0];
                assert(rest.contains(y));
                lemma_filter_members(tail, tie, y);
                let j = choose|j: int| 0 <= j < tail.len() && tail[j] == y;
                assert(t[p + j] == y);
                lemma_chain(le, y, x, last);
            }
            assert(rest =~= Seq::<T>::empty());
            assert(head.filter(tie).push(last) + rest =~= (head.filter(tie) + rest).push(last));
        }
    }
}

/// Sorting twice gives what sorting once gives.
pub proof fn lemma_stable_sort_idempotent<T>(s: Seq<T>, le: spec_fn(T, T) -> bool)
    requires
        total_preorder(le),
    ensures
        stable_sort(stable_sort(s, le), le) == stable_sort(s, le),
{
    lemma_stable_sort_ordered(s, le);
    lemma_sorted_is_fixed(stable_sort(s, le), le);
}

/// A way of ordering values of `T` that can be decided at run time.
pub trait Arrangement<T> {
    /// The relation decided by `precedes`: `a` does not come after `b`.
    spec fn relation(&self) -> spec_fn(T, T) -> bool;

    /// The relation is a total preorder.
    proof fn lemma_total(&self)
        ensures
            total_preorder(self.relation()),
    ;

    /// Decides the relation for two values.
    fn precedes(&self, a: &T, b: &T) -> (r: bool)
        ensures
            r == (self.relation())(*a, *b),
    ;
}

/// Sorts `items` in place and stably under `how`: afterwards they are in order,
/// hold what they held before, and are the stable sorted form of the old
/// contents.
pub fn sort_with<T, A: Arrangement<T>>(items: &mut Vec<T>, how: &A)
    ensures
        final(items)@ == stable_sort(old(items)@, how.relation()),
        sorted_by(final(items)@, how.relation()),
        final(items)@.to_multiset() == old(items)@.to_multiset(),
{
    let ghost orig = items@;
    let ghost le = how.relation();
    let mut stack = drain_reversed(items);
    while stack.len() > 0
        invariant
            le == how.relation(),
            stack.len() <= orig.len(),
            stack@ == orig.reverse().take(stack.len() as int),
            items@ == stable_sort(orig.take(orig.len() - stack.len()), le),
        decreases stack.len(),
    {
        let ghost done = orig.len() - stack.len();
        let x = stack.pop().unwrap();
        let mut j: usize = items.len();
        assert(items@.take(j as int) =~= items@);
        while j > 0 && !how.precedes(&items[j - 1], &x)
            invariant
                le == how.relation(),
                j <= items.len(),
                insert_point(items@, x, le) == insert_point(items@.take(j as int), x, le),
            decreases j,
        {
            assert(items@.take(j as int).drop_last() =~= items@.take(j - 1));
            j -= 1;
        }
        proof {
            assert(x == orig[done]);
            assert(orig.take(done + 1).drop_last() =~= orig.take(done));
            assert(orig.take(done + 1).last() == x);
        }
        items.insert(j, x);
    }
    proof {
        assert(orig.take(orig.len() as int) =~= orig);
        how.lemma_total();
        lemma_stable_sort_ordered(orig, le);
        lemma_stable_sort_permutes(orig, le);
    }
}

} // verus!
