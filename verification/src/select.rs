//! Keeping the items of a vector that pass a test, in their order.

use vstd::prelude::*;

verus! {

/// A test on values of `T` that can be decided at run time.
pub trait Criterion<T> {
    /// The property decided by `decide`.
    spec fn accepts(&self) -> spec_fn(T) -> bool;

    /// Decides the property for one value.
    fn decide(&self, item: &T) -> (r: bool)
        ensures
            r == (self.accepts())(*item),
    ;
}

/// Empties `items` into a new vector that holds them in reverse order, so that
/// popping from it yields the old contents front to back.
pub fn drain_reversed<T>(items: &mut Vec<T>) -> (stack: Vec<T>)
    ensures
        final(items)@.len() == 0,
        stack@ == old(items)@.reverse(),
{
    let ghost orig = items@;
    let mut stack: Vec<T> = Vec::new();
    while items.len() > 0
        invariant
            items.len() + stack.len() == orig.len(),
            items@ == orig.take(items.len() as int),
            forall|j: int| 0 <= j < stack.len() ==> stack[j] == orig[orig.len() - 1 - j],
        decreases items.len(),
    {
        let x = items.pop().unwrap();
        stack.push(x);
    }
    assert(stack@ =~= orig.reverse());
    stack
}

/// Keeps the items that pass `test` and drops the others; the items kept stay
/// in their order.
pub fn keep_where<T, C: Criterion<T>>(items: &mut Vec<T>, test: &C)
    ensures
        final(items)@ == old(items)@.filter(test.accepts()),
{
    let ghost orig = items@;
    let ghost pred = test.accepts();
    let mut stack = drain_reversed(items);
    while stack.len() > 0
        invariant
            pred == test.accepts(),
            stack.len() <= orig.len(),
            stack@ == orig.reverse().take(stack.len() as int),
            items@ == orig.take(orig.len() - stack.len()).filter(pred),
        decreases stack.len(),
    {
        let ghost done = orig.len() - stack.len();
        let x = stack.pop().unwrap();
        proof {
            reveal_with_fuel(Seq::filter, 2);
            assert(x == orig[done]);
            assert(orig.take(done + 1).drop_last() =~= orig.take(done));
            assert(orig.take(done + 1).last() == x);
        }
        if test.decide(&x) {
            items.push(x);
        }
    }
    assert(orig.take(orig.len() as int) =~= orig);
}

/// A filtered sequence holds exactly the elements that pass the test.
pub proof fn lemma_filter_members<T>(s: Seq<T>, pred: spec_fn(T) -> bool, x: T)
    ensures
        s.filter(pred).contains(x) <==> s.contains(x) && pred(x),
    decreases s.len(),
{
    reveal(Seq::filter);
    if s.len() > 0 {
        let front = s.drop_last();
        let out = s.filter(pred);
        lemma_filter_members(front, pred, x);
        if out.contains(x) {
            let i = choose|i: int| 0 <= i < out.len() && out[i] == x;
            if pred(s.last()) && i == out.len() - 1 {
                assert(s[s.len() - 1] == x);
            } else {
                assert(front.filter(pred)[i] == x);
                let k = choose|k: int| 0 <= k < front.len() && front[k] == x;
                assert(s[k] == x);
            }
        }
        if s.contains(x) && pred(x) {
            let k = choose|k: int| 0 <= k < s.len() && s[k] == x;
            if k == s.len() - 1 {
                assert(out[out.len() - 1] == x);
            } else {
                assert(front[k] == x);
                let i = choose|i: int|
                    0 <= i < front.filter(pred).len() && front.filter(pred)[i] == x;
                assert(out[i] == x);
            }
        }
    }
}

} // verus!
