//! Searching a sequence for the first element with a property.

use vstd::prelude::*;

verus! {

/// Position of the first element of `s` that `p` holds of, or the length of
/// `s` where there is none.
pub open spec fn first_index<T>(s: Seq<T>, p: spec_fn(T) -> bool) -> int
    decreases s.len(),
{
    if s.len() == 0 {
        0
    } else if p(s[0]) {
        0
    } else {
        1 + first_index(s.drop_first(), p)
    }
}

/// Whether `p` holds of some element of `s`.
pub open spec fn found<T>(s: Seq<T>, p: spec_fn(T) -> bool) -> bool {
    first_index(s, p) < s.len()
}

/// `first_index` is within bounds, points at an element with the property
/// where it points at one at all, and passes over none before it.
pub proof fn lemma_first_index<T>(s: Seq<T>, p: spec_fn(T) -> bool)
    ensures
        0 <= first_index(s, p) <= s.len(),
        first_index(s, p) < s.len() ==> p(s[first_index(s, p)]),
        forall|k: int| 0 <= k < first_index(s, p) ==> !p(#[trigger] s[k]),
    decreases s.len(),
{
    if s.len() > 0 && !p(s[0]) {
        let rest = s.drop_first();
        lemma_first_index(rest, p);
        assert forall|k: int| 0 <= k < first_index(s, p) implies !p(#[trigger] s[k]) by {
            if k > 0 {
                assert(s[k] == rest[k - 1]);
            }
        }
    }
}

/// The position `i` is the first one with the property where the property
/// holds there and nowhere before.
pub proof fn lemma_first_index_is<T>(s: Seq<T>, p: spec_fn(T) -> bool, i: int)
    requires
        0 <= i <= s.len(),
        i < s.len() ==> p(s[i]),
        forall|k: int| 0 <= k < i ==> !p(#[trigger] s[k]),
    ensures
        first_index(s, p) == i,
{
    lemma_first_index(s, p);
    let f = first_index(s, p);
    if f < i {
        assert(!p(s[f]));
    } else if f > i {
        assert(p(s[i]));
    }
}

/// Something is found exactly where the property holds of some element.
pub proof fn lemma_found_iff<T>(s: Seq<T>, p: spec_fn(T) -> bool)
    ensures
        found(s, p) <==> exists|k: int| 0 <= k < s.len() && p(#[trigger] s[k]),
{
    lemma_first_index(s, p);
    if found(s, p) {
        assert(p(s[first_index(s, p)]));
    }
    if exists|k: int| 0 <= k < s.len() && p(#[trigger] s[k]) {
        let k = choose|k: int| 0 <= k < s.len() && p(#[trigger] s[k]);
        if !found(s, p) {
            assert(!p(s[k]));
        }
    }
}

/// Nothing stays of a list of which the property holds of no element.
pub proof fn lemma_filter_none<T>(s: Seq<T>, p: spec_fn(T) -> bool)
    requires
        forall|k: int| 0 <= k < s.len() ==> !p(#[trigger] s[k]),
    ensures
        s.filter(p) == Seq::<T>::empty(),
    decreases s.len(),
{
    if s.len() > 0 {
        let init = s.drop_last();
        assert forall|k: int| 0 <= k < init.len() implies !p(#[trigger] init[k]) by {
            assert(init[k] == s[k]);
        }
        lemma_filter_none(init, p);
        assert(s =~= init.push(s.last()));
        init.lemma_filter_push(s.last(), p);
    } else {
        assert(s.filter(p) =~= Seq::<T>::empty());
    }
}

/// The elements in the opposite order.
pub fn turned<T>(v: Vec<T>) -> (r: Vec<T>)
    ensures
        r@ == v@.reverse(),
{
    let ghost all = v@;
    let mut rest = v;
    let mut r: Vec<T> = Vec::new();
    while rest.len() > 0
        invariant
            r@.len() + rest@.len() == all.len(),
            forall|k: int| 0 <= k < rest@.len() ==> rest@[k] == all[k],
            forall|k: int| 0 <= k < r@.len() ==> r@[k] == all[all.len() - 1 - k],
        decreases rest.len(),
    {
        match rest.pop() {
            Some(x) => r.push(x),
            None => {},
        }
    }
    assert(r@ =~= all.reverse());
    r
}

} // verus!
