//! Short sequences written as sums of items that pass a test, and how such
//! sums relate to filtering.

use vstd::prelude::*;

verus! {

/// The sequence of `x` alone where `keep` holds, else the empty one.
pub open spec fn item_if<A>(keep: bool, x: A) -> Seq<A> {
    if keep {
        seq![x]
    } else {
        Seq::empty()
    }
}

/// The sequence of `x` alone where `keep` holds of `x`, else the empty one.
pub open spec fn item_where<A>(x: A, keep: spec_fn(A) -> bool) -> Seq<A> {
    item_if(keep(x), x)
}

/// The test that holds where both `first` and `second` hold.
pub open spec fn both<A>(first: spec_fn(A) -> bool, second: spec_fn(A) -> bool) -> spec_fn(
    A,
) -> bool {
    |x: A| first(x) && second(x)
}

/// The first item of a sequence, if it has one.
pub open spec fn first_of<A>(items: Seq<A>) -> Option<A> {
    if items.len() > 0 {
        Some(items[0])
    } else {
        None
    }
}

/// The one item of a sequence of one item; nothing for any other sequence.
pub open spec fn only_of<A>(items: Seq<A>) -> Option<A> {
    if items.len() == 1 {
        Some(items[0])
    } else {
        None
    }
}

/// What a sum of two sequences holds.
pub proof fn lemma_add_contains<A>(a: Seq<A>, b: Seq<A>, x: A)
    ensures
        (a + b).contains(x) <==> a.contains(x) || b.contains(x),
{
    if a.contains(x) {
        let i = choose|i: int| 0 <= i < a.len() && a[i] == x;
        assert((a + b)[i] == x);
    }
    if b.contains(x) {
        let i = choose|i: int| 0 <= i < b.len() && b[i] == x;
        assert((a + b)[a.len() + i] == x);
    }
}

/// Filtering leaves the empty sequence empty.
pub proof fn lemma_filter_nothing<A>(keep: spec_fn(A) -> bool)
    ensures
        Seq::<A>::empty().filter(keep) == Seq::<A>::empty(),
{
    reveal(Seq::filter);
}

/// Filtering a sequence that ends in `x` filters what comes before `x` and
/// then decides on `x`.
pub proof fn lemma_filter_push<A>(s: Seq<A>, x: A, keep: spec_fn(A) -> bool)
    ensures
        s.push(x).filter(keep) == s.filter(keep) + item_where(x, keep),
{
    reveal(Seq::filter);
    assert(s.push(x).drop_last() =~= s);
}

/// Filtering the first `i + 1` items filters the first `i` and then decides
/// on the next.
pub proof fn lemma_filter_take_next<A>(s: Seq<A>, i: int, keep: spec_fn(A) -> bool)
    requires
        0 <= i < s.len(),
    ensures
        s.take(i + 1).filter(keep) == s.take(i).filter(keep) + item_where(s[i], keep),
{
    assert(s.take(i + 1) =~= s.take(i).push(s[i]));
    lemma_filter_push(s.take(i), s[i], keep);
}

/// Taking every item of a sequence gives the sequence, and taking none gives
/// the empty one.
pub proof fn lemma_take_ends<A>(s: Seq<A>)
    ensures
        s.take(s.len() as int) == s,
        s.take(0) == Seq::<A>::empty(),
{
}

/// Filtering an item that passed one test keeps it where it passes both.
pub proof fn lemma_filter_item<A>(x: A, first: spec_fn(A) -> bool, second: spec_fn(A) -> bool)
    ensures
        item_where(x, first).filter(second) == item_where(x, both(first, second)),
{
    lemma_filter_nothing(second);
    lemma_filter_push(Seq::<A>::empty(), x, second);
}

/// A filtered sequence of two items is the sum of those that pass.
pub proof fn lemma_filter_2<A>(a: A, b: A, keep: spec_fn(A) -> bool)
    ensures
        seq![a, b].filter(keep) == item_where(a, keep) + item_where(b, keep),
{
    let none = Seq::<A>::empty();
    lemma_filter_nothing(keep);
    lemma_filter_push(none, a, keep);
    lemma_filter_push(none.push(a), b, keep);
    assert(seq![a, b] =~= none.push(a).push(b));
}

/// A filtered sequence of three items is the sum of those that pass.
pub proof fn lemma_filter_3<A>(a: A, b: A, c: A, keep: spec_fn(A) -> bool)
    ensures
        seq![a, b, c].filter(keep) == item_where(a, keep) + item_where(b, keep) + item_where(
            c,
            keep,
        ),
{
    lemma_filter_2(a, b, keep);
    lemma_filter_push(seq![a, b], c, keep);
    assert(seq![a, b, c] =~= seq![a, b].push(c));
}

/// A filtered sequence of four items is the sum of those that pass.
pub proof fn lemma_filter_4<A>(a: A, b: A, c: A, d: A, keep: spec_fn(A) -> bool)
    ensures
        seq![a, b, c, d].filter(keep) == item_where(a, keep) + item_where(b, keep) + item_where(
            c,
            keep,
        ) + item_where(d, keep),
{
    lemma_filter_3(a, b, c, keep);
    lemma_filter_push(seq![a, b, c], d, keep);
    assert(seq![a, b, c, d] =~= seq![a, b, c].push(d));
}

/// The first item that a filter keeps is the first item of the filtered
/// sequence.
pub proof fn lemma_filter_first<A>(s: Seq<A>, i: int, keep: spec_fn(A) -> bool)
    requires
        0 <= i < s.len(),
        keep(s[i]),
        forall|j: int| 0 <= j < i ==> !keep(#[trigger] s[j]),
    ensures
        first_of(s.filter(keep)) == Some(s[i]),
{
    let head = s.take(i);
    let tail = s.skip(i + 1);
    head.lemma_all_neg_filter_empty(keep);
    lemma_filter_push(head, s[i], keep);
    assert(s =~= head.push(s[i]) + tail);
    Seq::filter_distributes_over_add(head.push(s[i]), tail, keep);
}

/// Where a filter keeps no item, the filtered sequence is empty.
pub proof fn lemma_filter_none<A>(s: Seq<A>, keep: spec_fn(A) -> bool)
    requires
        forall|j: int| 0 <= j < s.len() ==> !keep(#[trigger] s[j]),
    ensures
        first_of(s.filter(keep)) == None::<A>,
{
    s.lemma_all_neg_filter_empty(keep);
}

} // verus!
