//! Picking the items of a list that a list of flags marks.
use vstd::prelude::*;
use crate::text::views;

verus! {

/// The items whose flag is set, in their order. An item without a flag is
/// left out.
pub open spec fn picked<A>(items: Seq<A>, flags: Seq<bool>) -> Seq<A>
    decreases items.len(),
{
    if items.len() == 0 {
        Seq::<A>::empty()
    } else {
        let before = picked(items.drop_last(), flags);
        if items.len() <= flags.len() && flags[items.len() - 1] {
            before.push(items.last())
        } else {
            before
        }
    }
}

/// Where each flag says whether its item meets `pred`, the picked items are
/// the items that meet `pred`.
pub proof fn lemma_picked_is_filter<A>(items: Seq<A>, flags: Seq<bool>, pred: spec_fn(A) -> bool)
    requires
        flags.len() == items.len(),
        forall|i: int| 0 <= i < items.len() ==> flags[i] == pred(items[i]),
    ensures
        picked(items, flags) == items.filter(pred),
    decreases items.len(),
{
    reveal(Seq::filter);
    if items.len() > 0 {
        lemma_picked_prefix(items.drop_last(), flags, flags.drop_last());
        lemma_picked_is_filter(items.drop_last(), flags.drop_last(), pred);
    }
}

/// Flags beyond the last item do not count.
pub proof fn lemma_picked_prefix<A>(items: Seq<A>, flags: Seq<bool>, shorter: Seq<bool>)
    requires
        items.len() <= shorter.len() <= flags.len(),
        forall|i: int| 0 <= i < items.len() ==> flags[i] == shorter[i],
    ensures
        picked(items, flags) == picked(items, shorter),
    decreases items.len(),
{
    if items.len() > 0 {
        lemma_picked_prefix(items.drop_last(), flags, shorter);
    }
}

/// An item is among the picked ones if and only if it stands in the list at
/// a place whose flag is set.
pub proof fn lemma_picked_contains<A>(items: Seq<A>, flags: Seq<bool>, x: A)
    ensures
        picked(items, flags).contains(x) <==> exists|i: int|
            0 <= i < items.len() && i < flags.len() && flags[i] && #[trigger] items[i] == x,
    decreases items.len(),
{
    if items.len() > 0 {
        let front = items.drop_last();
        let last = items.len() - 1;
        lemma_picked_contains(front, flags, x);
        let taken = items.len() <= flags.len() && flags[last];
        if picked(items, flags).contains(x) && !(taken && items[last] == x) {
            let i = choose|i: int|
                0 <= i < front.len() && i < flags.len() && flags[i] && #[trigger] front[i] == x;
            assert(items[i] == x);
        }
        if exists|i: int|
            0 <= i < items.len() && i < flags.len() && flags[i] && #[trigger] items[i] == x {
            let i = choose|i: int|
                0 <= i < items.len() && i < flags.len() && flags[i] && #[trigger] items[i] == x;
            if i == last {
                assert(picked(items, flags)[picked(front, flags).len() as int] == x);
            } else {
                assert(front[i] == x);
                let k = choose|k: int|
                    0 <= k < picked(front, flags).len() && picked(front, flags)[k] == x;
                assert(picked(items, flags)[k] == x);
            }
        }
    }
}

/// Of two conditions, it does not matter which is asked for first.
pub proof fn lemma_filter_commutes<A>(items: Seq<A>, p: spec_fn(A) -> bool, q: spec_fn(A) -> bool)
    ensures
        items.filter(p).filter(q) == items.filter(q).filter(p),
    decreases items.len(),
{
    if items.len() == 0 {
        items.lemma_filter_len(p);
        items.lemma_filter_len(q);
    } else {
        let front = items.drop_last();
        let last = items.last();
        lemma_filter_commutes(front, p, q);
        assert(items =~= front.push(last));
        front.lemma_filter_push(last, p);
        front.lemma_filter_push(last, q);
        front.filter(p).lemma_filter_push(last, q);
        front.filter(q).lemma_filter_push(last, p);
    }
}

/// No more items are picked than there are.
pub proof fn lemma_picked_len<A>(items: Seq<A>, flags: Seq<bool>)
    ensures
        picked(items, flags).len() <= items.len(),
    decreases items.len(),
{
    if items.len() > 0 {
        lemma_picked_len(items.drop_last(), flags);
    }
}

/// The strings of `items` whose flag is set, in their order.
pub fn pick<'a>(items: &'a [&'a str], flags: &[bool]) -> (r: Vec<&'a str>)
    ensures
        views(r@) == picked(views(items@), flags@),
{
    let ghost model = views(items@);
    let mut r: Vec<&'a str> = Vec::new();
    let mut i: usize = 0;
    while i < items.len()
        invariant
            i <= items.len(),
            model == views(items@),
            views(r@) == picked(model.take(i as int), flags@),
        decreases items.len() - i,
    {
        assert(model.take(i + 1).drop_last() =~= model.take(i as int));
        if i < flags.len() && flags[i] {
            r.push(items[i]);
        }
        i += 1;
    }
    assert(model.take(i as int) =~= model);
    r
}

} // verus!
