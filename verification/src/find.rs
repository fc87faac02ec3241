//! Finding the first element of a list that has a property.
use vstd::prelude::*;

verus! {

/// The position of the first element of which `p` holds, or the length of the
/// list where it holds of none.
pub open spec fn first_where<T>(s: Seq<T>, p: spec_fn(T) -> bool) -> int
    decreases s.len(),
{
    if s.len() == 0 || p(s[0]) {
        0
    } else {
        1 + first_where(s.drop_first(), p)
    }
}

/// The first element of which `p` holds.
pub open spec fn found<T>(s: Seq<T>, p: spec_fn(T) -> bool) -> Option<T> {
    let i = first_where(s, p);
    if i < s.len() {
        Some(s[i])
    } else {
        None
    }
}

/// A position is the first where `p` holds there, or there is none, and it
/// holds nowhere before.
pub proof fn lemma_first_where<T>(s: Seq<T>, p: spec_fn(T) -> bool, i: int)
    requires
        0 <= i <= s.len(),
        i < s.len() ==> p(s[i]),
        forall|j: int| 0 <= j < i ==> !p(#[trigger] s[j]),
    ensures
        first_where(s, p) == i,
    decreases s.len(),
{
    if i > 0 {
        assert(!p(s[0]));
        assert forall|j: int| 0 <= j < i - 1 implies !p(#[trigger] s.drop_first()[j]) by {
            assert(!p(s[j + 1]));
        }
        lemma_first_where(s.drop_first(), p, i - 1);
    }
}

/// What being the first position means.
pub proof fn lemma_first_where_is<T>(s: Seq<T>, p: spec_fn(T) -> bool)
    ensures
        0 <= first_where(s, p) <= s.len(),
        first_where(s, p) < s.len() ==> p(s[first_where(s, p)]),
        forall|j: int| 0 <= j < first_where(s, p) ==> !p(#[trigger] s[j]),
    decreases s.len(),
{
    if s.len() > 0 && !p(s[0]) {
        let rest = s.drop_first();
        lemma_first_where_is(rest, p);
        let i = first_where(s, p);
        assert forall|j: int| 0 <= j < i implies !p(#[trigger] s[j]) by {
            if j > 0 {
                assert(!p(rest[j - 1]));
            }
        }
        if i < s.len() {
            assert(rest[i - 1] == s[i]);
        }
    }
}

/// The first in two lists, one behind the other, is the first in the first of
/// them, or else in the second.
pub proof fn lemma_found_in_both<T>(a: Seq<T>, b: Seq<T>, p: spec_fn(T) -> bool)
    ensures
        found(a + b, p) == (match found(a, p) {
            Some(x) => Some(x),
            None => found(b, p),
        }),
{
    lemma_first_where_is(a, p);
    lemma_first_where_is(b, p);
    let i = first_where(a, p);
    if i < a.len() {
        assert forall|j: int| 0 <= j < i implies !p(#[trigger] (a + b)[j]) by {
            assert(!p(a[j]));
        }
        assert((a + b)[i] == a[i]);
        lemma_first_where(a + b, p, i);
    } else {
        let k = first_where(b, p);
        assert forall|j: int| 0 <= j < i + k implies !p(#[trigger] (a + b)[j]) by {
            if j < i {
                assert(!p(a[j]));
            } else {
                assert(!p(b[j - i]));
            }
        }
        if k < b.len() {
            assert((a + b)[i + k] == b[k]);
        }
        lemma_first_where(a + b, p, i + k);
    }
}

} // verus!
