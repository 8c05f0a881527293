//! Facts about the part of a sequence that passes a test.

use vstd::prelude::*;

verus! {

/// Filtering a sequence that grew by one element at its end: the element
/// joins the end of the result if it passes, and is left out if not.
pub proof fn lemma_filter_push<A>(s: Seq<A>, x: A, p: spec_fn(A) -> bool)
    ensures
        s.push(x).filter(p) == if p(x) {
            s.filter(p).push(x)
        } else {
            s.filter(p)
        },
{
    reveal(Seq::filter);
    assert(s.push(x).drop_last() =~= s);
}

/// A sequence in which nothing passes the test filters to nothing.
pub proof fn lemma_filter_none<A>(s: Seq<A>, p: spec_fn(A) -> bool)
    requires
        forall|j: int| 0 <= j < s.len() ==> !p(#[trigger] s[j]),
    ensures
        s.filter(p) == Seq::<A>::empty(),
    decreases s.len(),
{
    reveal(Seq::filter);
    if s.len() > 0 {
        lemma_filter_none(s.drop_last(), p);
    }
}

/// Taking out an element that fails the test does not change the result.
pub proof fn lemma_filter_remove_failing<A>(s: Seq<A>, i: int, p: spec_fn(A) -> bool)
    requires
        0 <= i < s.len(),
        !p(s[i]),
    ensures
        s.remove(i).filter(p) == s.filter(p),
{
    let head = s.take(i);
    let tail = s.skip(i + 1);
    let middle = seq![s[i]];
    assert(s =~= (head + middle) + tail);
    lemma_filter_none(middle, p);
    Seq::filter_distributes_over_add(head + middle, tail, p);
    Seq::filter_distributes_over_add(head, middle, p);
    Seq::filter_distributes_over_add(head, tail, p);
}

/// Taking out the first element that passes the test takes the first
/// element out of the result.
pub proof fn lemma_filter_remove_first_passing<A>(s: Seq<A>, i: int, p: spec_fn(A) -> bool)
    requires
        0 <= i < s.len(),
        p(s[i]),
        forall|j: int| 0 <= j < i ==> !p(#[trigger] s[j]),
    ensures
        s.filter(p).len() > 0,
        s.filter(p)[0] == s[i],
        s.remove(i).filter(p) == s.filter(p).drop_first(),
{
    let head = s.take(i);
    let tail = s.skip(i + 1);
    let middle = seq![s[i]];
    assert(s =~= (head + middle) + tail);
    lemma_filter_none(head, p);
    lemma_filter_push(Seq::<A>::empty(), s[i], p);
    lemma_filter_none(Seq::<A>::empty(), p);
    Seq::filter_distributes_over_add(head + middle, tail, p);
    Seq::filter_distributes_over_add(head, middle, p);
    Seq::filter_distributes_over_add(head, tail, p);
}

/// Two rounds of taking from the front and adding at the back make one
/// round: where `out0 + mid` is `start + in0` and `out1 + end` is
/// `mid + in1`, there `out0 + out1 + end` is `start + in0 + in1`.
pub proof fn lemma_chain<A>(
    out0: Seq<A>,
    mid: Seq<A>,
    out1: Seq<A>,
    end: Seq<A>,
    start: Seq<A>,
    in0: Seq<A>,
    in1: Seq<A>,
)
    requires
        out0 + mid == start + in0,
        out1 + end == mid + in1,
    ensures
        (out0 + out1) + end == start + (in0 + in1),
{
    assert((out0 + out1) + end =~= out0 + (out1 + end));
    assert(out0 + (mid + in1) =~= (out0 + mid) + in1);
}

} // verus!
