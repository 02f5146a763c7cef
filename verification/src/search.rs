//! The elements of a sequence with some property, and the first of them.

use vstd::prelude::*;

verus! {

/// The index of the first element of `s` for which `p` holds.
pub open spec fn first_where<T>(s: Seq<T>, p: spec_fn(T) -> bool) -> Option<int>
    decreases s.len(),
{
    if s.len() == 0 {
        None
    } else {
        match first_where(s.drop_last(), p) {
            Some(i) => Some(i),
            None => if p(s.last()) {
                Some(s.len() - 1)
            } else {
                None
            },
        }
    }
}

/// The first element of `s` for which `p` holds.
pub open spec fn found<T>(s: Seq<T>, p: spec_fn(T) -> bool) -> Option<T> {
    match first_where(s, p) {
        Some(i) => Some(s[i]),
        None => None,
    }
}

/// What `first_where` gives.
pub proof fn lemma_first_where<T>(s: Seq<T>, p: spec_fn(T) -> bool)
    ensures
        match first_where(s, p) {
            Some(i) => 0 <= i < s.len() && p(s[i]) && forall|j: int| 0 <= j < i ==> !p(#[trigger] s[j]),
            None => forall|j: int| 0 <= j < s.len() ==> !p(#[trigger] s[j]),
        },
    decreases s.len(),
{
    if s.len() > 0 {
        let head = s.drop_last();
        lemma_first_where(head, p);
        match first_where(head, p) {
            Some(i) => {
                assert(head[i] == s[i]);
                assert forall|j: int| 0 <= j < i implies !p(#[trigger] s[j]) by {
                    assert(head[j] == s[j]);
                }
            },
            None => {
                assert forall|j: int| 0 <= j < s.len() - 1 implies !p(#[trigger] s[j]) by {
                    assert(head[j] == s[j]);
                }
            },
        }
    }
}

/// Only one index can be the first.
pub proof fn lemma_first_is<T>(s: Seq<T>, p: spec_fn(T) -> bool, i: int)
    requires
        0 <= i < s.len(),
        p(s[i]),
        forall|j: int| 0 <= j < i ==> !p(#[trigger] s[j]),
    ensures
        first_where(s, p) == Some(i),
        found(s, p) == Some(s[i]),
{
    lemma_first_where(s, p);
    match first_where(s, p) {
        Some(k) => {
            if k < i {
                assert(!p(s[k]));
            } else if i < k {
                assert(!p(s[i]));
            }
        },
        None => {
            assert(!p(s[i]));
        },
    }
}

/// Where no element has the property, none is the first.
pub proof fn lemma_first_none<T>(s: Seq<T>, p: spec_fn(T) -> bool)
    requires
        forall|j: int| 0 <= j < s.len() ==> !p(#[trigger] s[j]),
    ensures
        first_where(s, p) is None,
        found(s, p) is None,
{
    lemma_first_where(s, p);
}

/// The places of the elements for which `p` holds, in order.
pub proof fn lemma_filter_places<T>(s: Seq<T>, p: spec_fn(T) -> bool) -> (places: Seq<int>)
    ensures
        places.len() == s.filter(p).len(),
        forall|i: int|
            0 <= i < places.len() ==> 0 <= #[trigger] places[i] < s.len() && s.filter(p)[i]
                == s[places[i]],
        forall|i: int, j: int|
            0 <= i < j < places.len() ==> #[trigger] places[i] < #[trigger] places[j],
        forall|k: int| #[trigger] places.contains(k) <==> 0 <= k < s.len() && p(s[k]),
    decreases s.len(),
{
    reveal(Seq::filter);
    if s.len() == 0 {
        Seq::empty()
    } else {
        let head = s.drop_last();
        let before = lemma_filter_places(head, p);
        let last = s.len() - 1;
        let places = if p(s.last()) {
            before.push(last)
        } else {
            before
        };
        assert forall|i: int| 0 <= i < places.len() implies 0 <= #[trigger] places[i] < s.len()
            && s.filter(p)[i] == s[places[i]] by {
            if i < before.len() {
                assert(places[i] == before[i]);
            }
        }
        assert forall|i: int, j: int| 0 <= i < j < places.len() implies #[trigger] places[i]
            < #[trigger] places[j] by {
            assert(places[i] == before[i]);
            if j < before.len() {
                assert(places[j] == before[j]);
            }
        }
        assert forall|k: int| #[trigger] places.contains(k) <==> 0 <= k < s.len() && p(s[k]) by {
            if places.contains(k) {
                let i = choose|i: int| 0 <= i < places.len() && places[i] == k;
                if i < before.len() {
                    assert(before[i] == k);
                    assert(before.contains(k));
                }
            }
            if 0 <= k < s.len() && p(s[k]) {
                if k < last {
                    assert(before.contains(k));
                    let i = choose|i: int| 0 <= i < before.len() && before[i] == k;
                    assert(places[i] == k);
                } else {
                    assert(places[before.len() as int] == k);
                }
            }
        }
        places
    }
}

} // verus!
