//! Properties that relate several operations of the container.

use vstd::prelude::*;
use crate::layouts::parallel::zip_slot;
use crate::vec::{rejected_by, select};

verus! {

/// The container's contents after pushing the elements of `xs`, in order,
/// onto contents `s` (each push appends, see `AVec::push`).
pub open spec fn push_each<T>(s: Seq<T>, xs: Seq<T>) -> Seq<T>
    decreases xs.len(),
{
    if xs.len() == 0 {
        s
    } else {
        push_each(s, xs.drop_last()).push(xs.last())
    }
}

/// The elements that `n` calls of `AVec::pop` return, in order, from
/// contents `s` (each pop returns the last element and removes it).
pub open spec fn pop_each<T>(s: Seq<T>, n: nat) -> Seq<T>
    decreases n,
{
    if n == 0 || s.len() == 0 {
        Seq::empty()
    } else {
        seq![s.last()] + pop_each(s.drop_last(), (n - 1) as nat)
    }
}

/// The contents left after `n` calls of `AVec::pop` on contents `s`.
pub open spec fn after_pops<T>(s: Seq<T>, n: nat) -> Seq<T>
    decreases n,
{
    if n == 0 || s.len() == 0 {
        s
    } else {
        after_pops(s.drop_last(), (n - 1) as nat)
    }
}

/// Pushing the elements of `xs` onto `s` appends them.
pub proof fn lemma_push_each<T>(s: Seq<T>, xs: Seq<T>)
    ensures
        push_each(s, xs) == s + xs,
    decreases xs.len(),
{
    if xs.len() > 0 {
        lemma_push_each(s, xs.drop_last());
        assert(s + xs.drop_last() + seq![xs.last()] =~= s + xs);
        assert((s + xs.drop_last()).push(xs.last()) =~= s + xs.drop_last() + seq![xs.last()]);
    }
}

/// Popping `n` elements off `s + xs`, where `n` is the length of `xs`,
/// returns the elements of `xs` in reverse order and leaves `s`.
proof fn lemma_pop_appended<T>(s: Seq<T>, xs: Seq<T>)
    ensures
        pop_each(s + xs, xs.len()) == xs.reverse(),
        after_pops(s + xs, xs.len()) == s,
    decreases xs.len(),
{
    if xs.len() == 0 {
        assert(s + xs =~= s);
        assert(xs.reverse() =~= Seq::<T>::empty());
    } else {
        let t = xs.drop_last();
        assert((s + xs).drop_last() =~= s + t);
        assert((s + xs).last() == xs.last());
        lemma_pop_appended(s, t);
        assert(seq![xs.last()] + t.reverse() =~= xs.reverse());
    }
}

/// Round trip: pushing the elements of `xs` onto a container holding `s`,
/// then popping as many times, returns the elements of `xs` in reverse order
/// and leaves the container holding `s` again.
pub proof fn lemma_push_pop_round_trip<T>(s: Seq<T>, xs: Seq<T>)
    ensures
        pop_each(push_each(s, xs), xs.len()) == xs.reverse(),
        after_pops(push_each(s, xs), xs.len()) == s,
{
    lemma_push_each(s, xs);
    lemma_pop_appended(s, xs);
}

/// Selecting by a flag that is `p` of each element is filtering by `p`.
pub proof fn lemma_select_filter<T>(s: Seq<T>, keep: Seq<bool>, p: spec_fn(T) -> bool)
    requires
        keep.len() == s.len(),
        forall|i: int| 0 <= i < s.len() ==> keep[i] == p(s[i]),
    ensures
        select(s, keep) == s.filter(p),
    decreases s.len(),
{
    reveal(Seq::filter);
    if s.len() > 0 {
        lemma_select_filter(s.drop_last(), keep.drop_last(), p);
    }
}

/// Partition by `AVec::drain_filter`: where the predicate decides by a
/// property `p` of the element alone, the container keeps exactly the
/// elements without `p`, in their initial order, however the filter ended.
pub proof fn lemma_drain_filter_partition<T, F: Fn(&T) -> bool>(
    predicate: F,
    p: spec_fn(T) -> bool,
    s: Seq<T>,
    keep: Seq<bool>,
)
    requires
        forall|x: &T, b: bool| #[trigger] predicate.ensures((x,), b) ==> b == p(*x),
        rejected_by(predicate, s, keep),
    ensures
        select(s, keep) == s.filter(|x: T| !p(x)),
{
    assert forall|i: int| 0 <= i < s.len() implies keep[i] == !p(s[i]) by {
        assert(predicate.ensures((&s[i],), !keep[i]));
    }
    lemma_select_filter(s, keep, |x: T| !p(x));
}

/// Partition by `AVec::retain`: where `f` decides by a property `p` of the
/// element alone, the container keeps exactly the elements with `p`, in
/// their initial order.
pub proof fn lemma_retain_partition<T, F: Fn(&T) -> bool>(
    f: F,
    p: spec_fn(T) -> bool,
    s: Seq<T>,
    keep: Seq<bool>,
)
    requires
        forall|x: &T, b: bool| #[trigger] f.ensures((x,), b) ==> b == p(*x),
        keep.len() == s.len(),
        forall|i: int| 0 <= i < s.len() ==> f.ensures((&s[i],), keep[i]),
    ensures
        select(s, keep) == s.filter(p),
{
    assert forall|i: int| 0 <= i < s.len() implies keep[i] == p(s[i]) by {
        assert(f.ensures((&s[i],), keep[i]));
    }
    lemma_select_filter(s, keep, p);
}


/// Structure-of-arrays consistency: where the view of a run shows the pairs
/// `pairs` (as `AVec::as_slice` gives it) and `left` and `right` are its two
/// columns (as `unzip` gives them), the columns hold the first and the second
/// components of the pairs, index by index.
pub proof fn lemma_columns_of_pairs<L, R>(
    pairs: Seq<(L, R)>,
    whole: Seq<Option<(L, R)>>,
    left: Seq<Option<L>>,
    right: Seq<Option<R>>,
)
    requires
        whole == pairs.map(|i: int, p: (L, R)| Some(p)),
        left.len() == whole.len(),
        right.len() == whole.len(),
        forall|i: int| 0 <= i < whole.len() ==> #[trigger] whole[i] == zip_slot(left[i], right[i]),
    ensures
        left == pairs.map(|i: int, p: (L, R)| Some(p.0)),
        right == pairs.map(|i: int, p: (L, R)| Some(p.1)),
{
    assert forall|i: int| 0 <= i < pairs.len() implies left[i] == Some(pairs[i].0) && right[i]
        == Some(pairs[i].1) by {
        assert(whole[i] == zip_slot(left[i], right[i]));
    }
    assert(left =~= pairs.map(|i: int, p: (L, R)| Some(p.0)));
    assert(right =~= pairs.map(|i: int, p: (L, R)| Some(p.1)));
}

} // verus!
