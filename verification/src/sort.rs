//! A stable sort, its meaning, and the laws that make it one.
use crate::views::views;
use vstd::prelude::*;

verus! {

/// `x` put into `s` behind every element that it does not come before,
/// searching from the end.
pub open spec fn inserted<T>(s: Seq<T>, x: T, lt: spec_fn(T, T) -> bool) -> Seq<T>
    decreases s.len(),
{
    if s.len() == 0 || !lt(x, s.last()) {
        s.push(x)
    } else {
        inserted(s.drop_last(), x, lt).push(s.last())
    }
}

/// The elements of `s` in the order `lt`, equal ones in the order they had.
pub open spec fn stable_sorted<T>(s: Seq<T>, lt: spec_fn(T, T) -> bool) -> Seq<T>
    decreases s.len(),
{
    if s.len() == 0 {
        s
    } else {
        inserted(stable_sorted(s.drop_last(), lt), s.last(), lt)
    }
}

/// Whether `lt` orders: no element precedes itself, and neither "precedes" nor
/// "does not precede" can go round in a circle.
pub open spec fn is_order<T>(lt: spec_fn(T, T) -> bool) -> bool {
    &&& forall|a: T| !#[trigger] lt(a, a)
    &&& forall|a: T, b: T, c: T| #[trigger] lt(a, b) && #[trigger] lt(b, c) ==> lt(a, c)
    &&& forall|a: T, b: T, c: T|
        #![trigger lt(a, b), lt(b, c)]
        !lt(a, b) && !lt(b, c) ==> !lt(a, c)
}

/// No later element precedes an earlier one.
pub open spec fn in_order<T>(s: Seq<T>, lt: spec_fn(T, T) -> bool) -> bool {
    forall|i: int, j: int| 0 <= i < j < s.len() ==> !lt(#[trigger] s[j], #[trigger] s[i])
}

pub proof fn lemma_inserted_len<T>(s: Seq<T>, x: T, lt: spec_fn(T, T) -> bool)
    ensures
        inserted(s, x, lt).len() == s.len() + 1,
        inserted(s, x, lt).to_multiset() == s.to_multiset().insert(x),
    decreases s.len(),
{
    broadcast use vstd::seq_lib::group_to_multiset_ensures;

    if s.len() > 0 && lt(x, s.last()) {
        lemma_inserted_len(s.drop_last(), x, lt);
        assert(s =~= s.drop_last().push(s.last()));
        assert(inserted(s, x, lt).to_multiset() =~= s.to_multiset().insert(x));
    }
}

/// Sorting loses nothing and adds nothing.
pub proof fn sorting_is_a_permutation<T>(s: Seq<T>, lt: spec_fn(T, T) -> bool)
    ensures
        stable_sorted(s, lt).len() == s.len(),
        stable_sorted(s, lt).to_multiset() == s.to_multiset(),
    decreases s.len(),
{
    broadcast use vstd::seq_lib::group_to_multiset_ensures;

    if s.len() > 0 {
        sorting_is_a_permutation(s.drop_last(), lt);
        lemma_inserted_len(stable_sorted(s.drop_last(), lt), s.last(), lt);
        assert(s =~= s.drop_last().push(s.last()));
    }
}

proof fn lemma_inserted_from<T>(s: Seq<T>, x: T, lt: spec_fn(T, T) -> bool, i: int)
    requires
        0 <= i <= s.len(),
    ensures
        inserted(s, x, lt).len() == s.len() + 1,
        inserted(s, x, lt)[i] == x || (exists|j: int|
            0 <= j < s.len() && inserted(s, x, lt)[i] == #[trigger] s[j]),
    decreases s.len(),
{
    lemma_inserted_len(s, x, lt);
    if s.len() > 0 && lt(x, s.last()) {
        lemma_inserted_len(s.drop_last(), x, lt);
        if i < s.len() {
            lemma_inserted_from(s.drop_last(), x, lt, i);
            if inserted(s, x, lt)[i] != x {
                let j = choose|j: int|
                    0 <= j < s.drop_last().len() && inserted(s.drop_last(), x, lt)[i]
                        == #[trigger] s.drop_last()[j];
                assert(inserted(s, x, lt)[i] == s[j]);
            }
        } else {
            assert(inserted(s, x, lt)[i] == s[s.len() - 1]);
        }
    } else if i < s.len() {
        assert(inserted(s, x, lt)[i] == s[i]);
    }
}

proof fn lemma_inserted_in_order<T>(s: Seq<T>, x: T, lt: spec_fn(T, T) -> bool)
    requires
        is_order(lt),
        in_order(s, lt),
    ensures
        in_order(inserted(s, x, lt), lt),
    decreases s.len(),
{
    let r = inserted(s, x, lt);
    lemma_inserted_len(s, x, lt);
    if s.len() > 0 && lt(x, s.last()) {
        let front = inserted(s.drop_last(), x, lt);
        lemma_inserted_in_order(s.drop_last(), x, lt);
        lemma_inserted_len(s.drop_last(), x, lt);
        assert forall|i: int, j: int| 0 <= i < j < r.len() implies !lt(
            #[trigger] r[j],
            #[trigger] r[i],
        ) by {
            if j == r.len() - 1 {
                lemma_inserted_from(s.drop_last(), x, lt, i);
                if r[i] != x {
                    let k = choose|k: int|
                        0 <= k < s.drop_last().len() && front[i] == #[trigger] s.drop_last()[k];
                    assert(s[k] == front[i]);
                    assert(!lt(s[s.len() - 1], s[k]));
                } else {
                    if lt(s.last(), x) {
                        assert(lt(x, x));
                    }
                }
            } else {
                assert(r[i] == front[i] && r[j] == front[j]);
            }
        }
    } else {
        assert forall|i: int, j: int| 0 <= i < j < r.len() implies !lt(
            #[trigger] r[j],
            #[trigger] r[i],
        ) by {
            if j == r.len() - 1 && i < s.len() - 1 {
                assert(!lt(s[s.len() - 1], s[i]));
                assert(!lt(x, s[s.len() - 1]));
            }
        }
    }
}

/// After sorting by an order, no element precedes one that stands before it.
pub proof fn sorting_orders<T>(s: Seq<T>, lt: spec_fn(T, T) -> bool)
    requires
        is_order(lt),
    ensures
        in_order(stable_sorted(s, lt), lt),
    decreases s.len(),
{
    if s.len() > 0 {
        sorting_orders(s.drop_last(), lt);
        lemma_inserted_in_order(stable_sorted(s.drop_last(), lt), s.last(), lt);
    }
}

/// What is in order already stays as it is.
pub proof fn sorting_keeps_what_is_in_order<T>(s: Seq<T>, lt: spec_fn(T, T) -> bool)
    requires
        in_order(s, lt),
    ensures
        stable_sorted(s, lt) == s,
    decreases s.len(),
{
    if s.len() > 0 {
        let front = s.drop_last();
        sorting_keeps_what_is_in_order(front, lt);
        if front.len() > 0 {
            assert(!lt(s[s.len() - 1], s[s.len() - 2]));
            assert(front.last() == s[s.len() - 2]);
        }
        assert(front.push(s.last()) =~= s);
    }
}

/// Sorting what is sorted changes nothing.
pub proof fn sorting_twice_is_sorting_once<T>(s: Seq<T>, lt: spec_fn(T, T) -> bool)
    requires
        is_order(lt),
    ensures
        stable_sorted(stable_sorted(s, lt), lt) == stable_sorted(s, lt),
{
    sorting_orders(s, lt);
    sorting_keeps_what_is_in_order(stable_sorted(s, lt), lt);
}

/// The elements of `s` of which `p` holds, in order.
pub open spec fn kept<T>(s: Seq<T>, p: spec_fn(T) -> bool) -> Seq<T>
    decreases s.len(),
{
    if s.len() == 0 {
        s
    } else if p(s.last()) {
        kept(s.drop_last(), p).push(s.last())
    } else {
        kept(s.drop_last(), p)
    }
}

proof fn lemma_inserted_kept<T>(s: Seq<T>, x: T, lt: spec_fn(T, T) -> bool, p: spec_fn(T) -> bool)
    requires
        forall|a: T, b: T| p(a) && p(b) ==> !#[trigger] lt(a, b),
    ensures
        kept(inserted(s, x, lt), p) == (if p(x) {
            kept(s, p).push(x)
        } else {
            kept(s, p)
        }),
    decreases s.len(),
{
    let r = inserted(s, x, lt);
    if s.len() > 0 && lt(x, s.last()) {
        lemma_inserted_kept(s.drop_last(), x, lt, p);
        assert(r.drop_last() =~= inserted(s.drop_last(), x, lt));
        assert(r.last() == s.last());
    } else {
        assert(r.drop_last() =~= s);
        assert(r.last() == x);
    }
}

/// Elements of which none precedes another keep the order they had: what `p`
/// selects is the same list before and after.
pub proof fn sorting_is_stable<T>(s: Seq<T>, lt: spec_fn(T, T) -> bool, p: spec_fn(T) -> bool)
    requires
        forall|a: T, b: T| p(a) && p(b) ==> !#[trigger] lt(a, b),
    ensures
        kept(stable_sorted(s, lt), p) == kept(s, p),
    decreases s.len(),
{
    if s.len() > 0 {
        sorting_is_stable(s.drop_last(), lt, p);
        lemma_inserted_kept(stable_sorted(s.drop_last(), lt), s.last(), lt, p);
    }
}

proof fn lemma_inserted_views<T: View>(
    s: Seq<T>,
    x: T,
    lt: spec_fn(T, T) -> bool,
    model_lt: spec_fn(T::V, T::V) -> bool,
)
    requires
        forall|a: T, b: T| #[trigger] lt(a, b) == model_lt(a@, b@),
    ensures
        views(inserted(s, x, lt)) == inserted(views(s), x@, model_lt),
    decreases s.len(),
{
    if s.len() == 0 || !lt(x, s.last()) {
        assert(views(s.push(x)) =~= views(s).push(x@));
    } else {
        lemma_inserted_views(s.drop_last(), x, lt, model_lt);
        assert(views(s).drop_last() =~= views(s.drop_last()));
        assert(views(inserted(s.drop_last(), x, lt).push(s.last())) =~= views(
            inserted(s.drop_last(), x, lt),
        ).push(s.last()@));
    }
}

/// Sorting by what the views say is sorting the views.
pub proof fn lemma_sorted_views<T: View>(
    s: Seq<T>,
    lt: spec_fn(T, T) -> bool,
    model_lt: spec_fn(T::V, T::V) -> bool,
)
    requires
        forall|a: T, b: T| #[trigger] lt(a, b) == model_lt(a@, b@),
    ensures
        views(stable_sorted(s, lt)) == stable_sorted(views(s), model_lt),
    decreases s.len(),
{
    if s.len() == 0 {
        assert(views(s) =~= Seq::<T::V>::empty());
    } else {
        lemma_sorted_views(s.drop_last(), lt, model_lt);
        lemma_inserted_views(stable_sorted(s.drop_last(), lt), s.last(), lt, model_lt);
        assert(views(s).drop_last() =~= views(s.drop_last()));
    }
}

proof fn lemma_inserted_at<T>(s: Seq<T>, x: T, lt: spec_fn(T, T) -> bool, at: int)
    requires
        0 <= at <= s.len(),
        at > 0 ==> !lt(x, s[at - 1]),
        forall|i: int| at <= i < s.len() ==> lt(x, #[trigger] s[i]),
    ensures
        inserted(s, x, lt) == s.insert(at, x),
    decreases s.len(),
{
    if s.len() > at {
        lemma_inserted_at(s.drop_last(), x, lt, at);
        assert(s.drop_last().insert(at, x).push(s.last()) =~= s.insert(at, x));
    } else {
        assert(s.push(x) =~= s.insert(at, x));
    }
}

/// Sorts `items` by `before`, keeping the order of those it does not separate.
pub(crate) fn stable_sort<T, F: Fn(&T, &T) -> bool>(
    items: Vec<T>,
    before: F,
    Ghost(lt): Ghost<spec_fn(T, T) -> bool>,
) -> (r: Vec<T>)
    requires
        forall|a: &T, b: &T| #[trigger] before.requires((a, b)),
        forall|a: &T, b: &T, y: bool| #[trigger] before.ensures((a, b), y) ==> y == lt(*a, *b),
    ensures
        r@ == stable_sorted(items@, lt),
{
    let mut rest = items;
    let ghost all = items@;
    let mut r: Vec<T> = Vec::new();
    while rest.len() > 0
        invariant
            forall|a: &T, b: &T| #[trigger] before.requires((a, b)),
            forall|a: &T, b: &T, y: bool| #[trigger] before.ensures((a, b), y) ==> y == lt(*a, *b),
            rest.len() <= all.len(),
            rest@ == all.skip(all.len() - rest.len()),
            r@ == stable_sorted(all.take(all.len() - rest.len()), lt),
        decreases rest.len(),
    {
        let ghost done = all.len() - rest.len();
        let x = rest.remove(0);
        proof {
            assert(x == all[done]);
            assert(all.take(done + 1).drop_last() =~= all.take(done));
            assert(rest@ =~= all.skip(done + 1));
        }
        let mut at: usize = r.len();
        while at > 0 && before(&x, &r[at - 1])
            invariant
                forall|a: &T, b: &T| #[trigger] before.requires((a, b)),
                forall|a: &T, b: &T, y: bool| #[trigger]
                    before.ensures((a, b), y) ==> y == lt(*a, *b),
                at <= r.len(),
                forall|i: int| at <= i < r.len() ==> lt(x, #[trigger] r@[i]),
            ensures
                at <= r.len(),
                forall|i: int| at <= i < r.len() ==> lt(x, #[trigger] r@[i]),
                at > 0 ==> !lt(x, r@[at - 1]),
            decreases at,
        {
            at -= 1;
        }
        proof {
            lemma_inserted_at(r@, x, lt, at as int);
        }
        r.insert(at, x);
    }
    proof {
        assert(all.take(all.len() as int) =~= all);
    }
    r
}

} // verus!
