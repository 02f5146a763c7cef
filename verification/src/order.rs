//! Stable sorting by rank.

use vstd::prelude::*;

verus! {

/// Values that can be listed in order of rank. Two values may share a rank.
pub trait Ranked: Sized {
    /// Whether `self` may stand before `other`.
    spec fn at_most(&self, other: &Self) -> bool;

    /// Decides `at_most`.
    fn is_at_most(&self, other: &Self) -> (r: bool)
        ensures
            r == self.at_most(other),
    ;

    /// Any two values can be ordered.
    proof fn lemma_total(a: Self, b: Self)
        ensures
            a.at_most(&b) || b.at_most(&a),
    ;

    /// The order is transitive.
    proof fn lemma_transitive(a: Self, b: Self, c: Self)
        requires
            a.at_most(&b),
            b.at_most(&c),
        ensures
            a.at_most(&c),
    ;
}

/// `s` with `x` put in behind the last element that may stand before it.
pub open spec fn inserted<T: Ranked>(s: Seq<T>, x: T) -> Seq<T>
    decreases s.len(),
{
    if s.len() == 0 || s.last().at_most(&x) {
        s.push(x)
    } else {
        inserted(s.drop_last(), x).push(s.last())
    }
}

/// The elements of `s` in order of rank; elements of one rank keep the order
/// that they have in `s`.
pub open spec fn ranked<T: Ranked>(s: Seq<T>) -> Seq<T>
    decreases s.len(),
{
    if s.len() == 0 {
        s
    } else {
        inserted(ranked(s.drop_last()), s.last())
    }
}

/// Whether no element of `s` stands before one that must precede it.
pub open spec fn in_order<T: Ranked>(s: Seq<T>) -> bool {
    forall|i: int, j: int| 0 <= i < j < s.len() ==> #[trigger] s[i].at_most(&#[trigger] s[j])
}

/// Whether `a` and `b` share a rank.
pub open spec fn same_rank<T: Ranked>(a: T, b: T) -> bool {
    a.at_most(&b) && b.at_most(&a)
}

/// The elements of `s` that share the rank of `x`, in the order of `s`.
pub open spec fn of_rank<T: Ranked>(s: Seq<T>, x: T) -> Seq<T> {
    s.filter(|y: T| same_rank(x, y))
}

proof fn lemma_inserted_multiset<T: Ranked>(s: Seq<T>, x: T)
    ensures
        inserted(s, x).to_multiset() =~= s.to_multiset().insert(x),
        inserted(s, x).len() == s.len() + 1,
    decreases s.len(),
{
    broadcast use vstd::seq_lib::group_to_multiset_ensures;

    if s.len() == 0 || s.last().at_most(&x) {
    } else {
        lemma_inserted_multiset(s.drop_last(), x);
        assert(s =~= s.drop_last().push(s.last()));
    }
}

proof fn lemma_inserted_order<T: Ranked>(s: Seq<T>, x: T)
    requires
        in_order(s),
    ensures
        in_order(inserted(s, x)),
        forall|i: int|
            0 <= i < inserted(s, x).len() ==> #[trigger] inserted(s, x)[i] == x || s.contains(
                inserted(s, x)[i],
            ),
    decreases s.len(),
{
    if s.len() == 0 {
    } else if s.last().at_most(&x) {
        assert forall|i: int, j: int| 0 <= i < j < inserted(s, x).len() implies #[trigger] inserted(
            s,
            x,
        )[i].at_most(&#[trigger] inserted(s, x)[j]) by {
            if j == s.len() && i < s.len() - 1 {
                T::lemma_transitive(s[i], s.last(), x);
            }
        }
        assert forall|i: int| 0 <= i < inserted(s, x).len() implies #[trigger] inserted(s, x)[i] == x
            || s.contains(inserted(s, x)[i]) by {
            if i < s.len() {
                assert(inserted(s, x)[i] == s[i]);
            }
        }
    } else {
        let head = s.drop_last();
        lemma_inserted_order(head, x);
        T::lemma_total(s.last(), x);
        let t = inserted(head, x);
        assert forall|i: int, j: int| 0 <= i < j < inserted(s, x).len() implies #[trigger] inserted(
            s,
            x,
        )[i].at_most(&#[trigger] inserted(s, x)[j]) by {
            if j == t.len() {
                assert(t[i] == x || head.contains(t[i]));
                if t[i] != x {
                    let k = choose|k: int| 0 <= k < head.len() && head[k] == t[i];
                    assert(s[k].at_most(&s[s.len() - 1]));
                }
            } else {
                assert(t[i].at_most(&t[j]));
            }
        }
        assert forall|i: int| 0 <= i < inserted(s, x).len() implies #[trigger] inserted(s, x)[i] == x
            || s.contains(inserted(s, x)[i]) by {
            if i < t.len() {
                assert(t[i] == x || head.contains(t[i]));
                if t[i] != x {
                    let k = choose|k: int| 0 <= k < head.len() && head[k] == t[i];
                    assert(s[k] == t[i]);
                }
            } else {
                assert(s[s.len() - 1] == inserted(s, x)[i]);
            }
        }
    }
}

proof fn lemma_of_rank_push<T: Ranked>(s: Seq<T>, x: T, y: T)
    ensures
        of_rank(s.push(x), y) == (if same_rank(y, x) {
            of_rank(s, y).push(x)
        } else {
            of_rank(s, y)
        }),
{
    reveal(Seq::filter);
    assert(s.push(x).drop_last() =~= s);
}

proof fn lemma_inserted_stable<T: Ranked>(s: Seq<T>, x: T, y: T)
    requires
        in_order(s),
    ensures
        of_rank(inserted(s, x), y) == of_rank(s.push(x), y),
    decreases s.len(),
{
    if s.len() == 0 || s.last().at_most(&x) {
    } else {
        let head = s.drop_last();
        let last = s.last();
        lemma_inserted_stable(head, x, y);
        lemma_of_rank_push(inserted(head, x), last, y);
        lemma_of_rank_push(head, x, y);
        assert(s =~= head.push(last));
        lemma_of_rank_push(head, last, y);
        lemma_of_rank_push(s, x, y);
        // `last` and `x` differ in rank, so at most one of them has the rank of `y`.
        if same_rank(y, last) && same_rank(y, x) {
            T::lemma_transitive(last, y, x);
        }
    }
}

/// Sorting loses and adds nothing, puts everything in order, and keeps the
/// order of elements that share a rank.
pub proof fn lemma_ranked<T: Ranked>(s: Seq<T>)
    ensures
        ranked(s).to_multiset() == s.to_multiset(),
        ranked(s).len() == s.len(),
        in_order(ranked(s)),
        forall|y: T| #[trigger] of_rank(ranked(s), y) == of_rank(s, y),
    decreases s.len(),
{
    broadcast use vstd::seq_lib::group_to_multiset_ensures;

    if s.len() > 0 {
        let head = s.drop_last();
        lemma_ranked(head);
        lemma_inserted_multiset(ranked(head), s.last());
        lemma_inserted_order(ranked(head), s.last());
        assert(s =~= head.push(s.last()));
        assert forall|y: T| #[trigger] of_rank(ranked(s), y) == of_rank(s, y) by {
            lemma_inserted_stable(ranked(head), s.last(), y);
            lemma_of_rank_push(ranked(head), s.last(), y);
            lemma_of_rank_push(head, s.last(), y);
            assert(of_rank(ranked(head), y) == of_rank(head, y));
        }
    }
}

/// Whether `t` is made of elements of `s`, each taken from the place that `places`
/// gives for it and none taken twice, in order of rank, and those of one rank in
/// the order of their places.
pub open spec fn placed<T: Ranked>(s: Seq<T>, t: Seq<T>, places: Seq<int>) -> bool {
    &&& t.len() == places.len()
    &&& forall|i: int|
        0 <= i < places.len() ==> 0 <= #[trigger] places[i] < s.len() && t[i] == s[places[i]]
    &&& forall|i: int, j: int|
        #![trigger places[i], places[j]]
        0 <= i < j < places.len() ==> places[i] != places[j] && s[places[i]].at_most(
            &s[places[j]],
        ) && (s[places[j]].at_most(&s[places[i]]) ==> places[i] < places[j])
}

/// Putting in one more element behind those of its rank keeps elements placed.
proof fn lemma_inserted_placed<T: Ranked>(s: Seq<T>, t: Seq<T>, x: T, places: Seq<int>) -> (more:
    Seq<int>)
    requires
        placed(s, t, places),
    ensures
        placed(s.push(x), inserted(t, x), more),
        more.len() == places.len() + 1,
        forall|i: int|
            0 <= i < more.len() ==> #[trigger] more[i] == s.len() || places.contains(more[i]),
        forall|k: int| k == s.len() || places.contains(k) ==> #[trigger] more.contains(k),
    decreases t.len(),
{
    let n = s.len() as int;
    let all = s.push(x);
    if t.len() == 0 || t.last().at_most(&x) {
        let more = places.push(n);
        assert forall|i: int, j: int|
            #![trigger more[i], more[j]]
            0 <= i < j < more.len() implies more[i] != more[j] && all[more[i]].at_most(
            &all[more[j]],
        ) && (all[more[j]].at_most(&all[more[i]]) ==> more[i] < more[j]) by {
            assert(more[i] == places[i]);
            if j < places.len() {
                assert(more[j] == places[j]);
            } else {
                let last = places.len() - 1;
                assert(places[last] == places.last());
                if i < last {
                    T::lemma_transitive(s[places[i]], s[places[last]], x);
                }
            }
        }
        assert forall|i: int| 0 <= i < more.len() implies #[trigger] more[i] == n
            || places.contains(more[i]) by {
            if i < places.len() {
                assert(more[i] == places[i]);
            }
        }
        assert forall|k: int| k == n || places.contains(k) implies #[trigger] more.contains(k) by {
            if k == n {
                assert(more[places.len() as int] == k);
            } else {
                let i = choose|i: int| 0 <= i < places.len() && places[i] == k;
                assert(more[i] == k);
            }
        }
        more
    } else {
        let head = t.drop_last();
        let before = places.drop_last();
        let last = places[places.len() - 1];
        assert forall|i: int| 0 <= i < before.len() implies #[trigger] before[i] == places[i] by {}
        assert(placed(s, head, before));
        let inner = lemma_inserted_placed(s, head, x, before);
        let more = inner.push(last);
        T::lemma_total(t.last(), x);
        assert forall|i: int, j: int|
            #![trigger more[i], more[j]]
            0 <= i < j < more.len() implies more[i] != more[j] && all[more[i]].at_most(
            &all[more[j]],
        ) && (all[more[j]].at_most(&all[more[i]]) ==> more[i] < more[j]) by {
            assert(more[i] == inner[i]);
            if j < inner.len() {
                assert(more[j] == inner[j]);
            } else if inner[i] != n {
                let k = choose|k: int| 0 <= k < before.len() && before[k] == inner[i];
                assert(places[k] == inner[i]);
            }
        }
        assert forall|i: int| 0 <= i < more.len() implies 0 <= #[trigger] more[i] < all.len()
            && inserted(t, x)[i] == all[more[i]] by {
            if i < inner.len() {
                assert(more[i] == inner[i]);
            }
        }
        assert forall|i: int| 0 <= i < more.len() implies #[trigger] more[i] == n
            || places.contains(more[i]) by {
            if i < inner.len() {
                assert(more[i] == inner[i]);
                if inner[i] != n {
                    let k = choose|k: int| 0 <= k < before.len() && before[k] == inner[i];
                    assert(places[k] == inner[i]);
                }
            } else {
                assert(places[places.len() - 1] == more[i]);
            }
        }
        assert forall|k: int| k == n || places.contains(k) implies #[trigger] more.contains(k) by {
            if k == n || k != last {
                if k != n {
                    let i = choose|i: int| 0 <= i < places.len() && places[i] == k;
                    assert(before[i] == k);
                }
                assert(inner.contains(k));
                let i = choose|i: int| 0 <= i < inner.len() && inner[i] == k;
                assert(more[i] == k);
            } else {
                assert(more[inner.len() as int] == k);
            }
        }
        more
    }
}

/// Sorting takes every element from its place, and those of one rank in the order
/// of their places.
pub proof fn lemma_ranked_placed<T: Ranked>(s: Seq<T>) -> (places: Seq<int>)
    ensures
        placed(s, ranked(s), places),
        places.len() == s.len(),
        forall|k: int| 0 <= k < s.len() ==> #[trigger] places.contains(k),
    decreases s.len(),
{
    if s.len() == 0 {
        Seq::empty()
    } else {
        let head = s.drop_last();
        let before = lemma_ranked_placed(head);
        assert(head.push(s.last()) =~= s);
        lemma_inserted_placed(head, ranked(head), s.last(), before)
    }
}

/// What is left of placed elements by a choice among them is placed too, at the
/// places of the elements chosen.
pub proof fn lemma_chosen_placed<T: Ranked>(
    s: Seq<T>,
    t: Seq<T>,
    places: Seq<int>,
    p: spec_fn(T) -> bool,
) -> (kept: Seq<int>)
    requires
        placed(s, t, places),
    ensures
        placed(s, t.filter(p), kept),
        forall|k: int| #[trigger] kept.contains(k) <==> places.contains(k) && p(s[k]),
    decreases t.len(),
{
    reveal(Seq::filter);
    if t.len() == 0 {
        assert(places =~= Seq::empty());
        places
    } else {
        let head = t.drop_last();
        let before = places.drop_last();
        let last = places[places.len() - 1];
        assert forall|i: int| 0 <= i < before.len() implies #[trigger] before[i] == places[i] by {}
        assert(placed(s, head, before));
        let inner = lemma_chosen_placed(s, head, before, p);
        assert(t.last() == s[last]);
        let kept = if p(t.last()) {
            inner.push(last)
        } else {
            inner
        };
        assert forall|i: int| 0 <= i < inner.len() implies before.contains(#[trigger] inner[i]) by {
            assert(inner.contains(inner[i]));
        }
        if p(t.last()) {
            assert forall|i: int, j: int|
                #![trigger kept[i], kept[j]]
                0 <= i < j < kept.len() implies kept[i] != kept[j] && s[kept[i]].at_most(
                &s[kept[j]],
            ) && (s[kept[j]].at_most(&s[kept[i]]) ==> kept[i] < kept[j]) by {
                assert(kept[i] == inner[i]);
                if j < inner.len() {
                    assert(kept[j] == inner[j]);
                } else {
                    let k = choose|k: int| 0 <= k < before.len() && before[k] == inner[i];
                    assert(places[k] == inner[i]);
                }
            }
            assert forall|i: int| 0 <= i < kept.len() implies 0 <= #[trigger] kept[i] < s.len()
                && t.filter(p)[i] == s[kept[i]] by {
                if i < inner.len() {
                    assert(kept[i] == inner[i]);
                }
            }
        }
        assert forall|k: int| #[trigger] kept.contains(k) <==> places.contains(k) && p(s[k]) by {
            if kept.contains(k) {
                let i = choose|i: int| 0 <= i < kept.len() && kept[i] == k;
                if i < inner.len() {
                    assert(inner[i] == k);
                    assert(inner.contains(k));
                    let j = choose|j: int| 0 <= j < before.len() && before[j] == k;
                    assert(places[j] == k);
                } else {
                    assert(places[places.len() - 1] == k);
                }
            }
            if places.contains(k) && p(s[k]) {
                let j = choose|j: int| 0 <= j < places.len() && places[j] == k;
                if j < before.len() {
                    assert(before[j] == k);
                    assert(inner.contains(k));
                    let i = choose|i: int| 0 <= i < inner.len() && inner[i] == k;
                    assert(kept[i] == k);
                } else {
                    assert(kept[kept.len() - 1] == k);
                }
            }
        }
        kept
    }
}

/// There is one way to put elements in order where no two of them share a rank.
pub proof fn lemma_one_order<T: Ranked>(s: Seq<T>, t: Seq<T>)
    requires
        s.to_multiset() == t.to_multiset(),
        in_order(s),
        in_order(t),
        forall|x: T, y: T|
            s.contains(x) && s.contains(y) && #[trigger] same_rank(x, y) ==> x == y,
    ensures
        s == t,
    decreases s.len(),
{
    broadcast use vstd::seq_lib::group_to_multiset_ensures;

    s.to_multiset_ensures();
    t.to_multiset_ensures();
    assert(s.len() == s.to_multiset().len() && t.len() == t.to_multiset().len());
    if s.len() > 0 {
        let x = s.last();
        let y = t.last();
        assert(s.contains(x) && t.contains(y));
        assert(s.to_multiset().count(y) > 0 && t.to_multiset().count(x) > 0);
        assert(s.contains(y) && t.contains(x));
        let i = choose|i: int| 0 <= i < s.len() && s[i] == y;
        let j = choose|j: int| 0 <= j < t.len() && t[j] == x;
        T::lemma_total(x, x);
        assert(s[i].at_most(&s[s.len() - 1]) || i == s.len() - 1);
        assert(t[j].at_most(&t[t.len() - 1]) || j == t.len() - 1);
        assert(same_rank(x, y));
        let u = s.drop_last();
        let v = t.drop_last();
        assert(s =~= u.push(x) && t =~= v.push(y));
        assert(u.to_multiset() =~= s.to_multiset().remove(x));
        assert(v.to_multiset() =~= t.to_multiset().remove(y));
        assert forall|a: T, b: T|
            u.contains(a) && u.contains(b) && #[trigger] same_rank(a, b) implies a == b by {
            assert(s.contains(a) && s.contains(b));
        }
        lemma_one_order(u, v);
    } else {
        assert(s =~= t);
    }
}

/// Puts `x` into `out` at the place that `inserted` gives it.
fn insert_ranked<'a, T: Ranked>(out: &mut Vec<&'a T>, x: &'a T)
    ensures
        final(out)@.unref() == inserted(old(out)@.unref(), *x),
{
    let ghost start = out@.unref();
    let mut at: usize = out.len();
    let ghost tail: Seq<T> = Seq::empty();
    proof {
        assert(start.take(start.len() as int) =~= start);
        assert(inserted(start, *x) + tail =~= inserted(start, *x));
    }
    while at > 0 && !out[at - 1].is_at_most(x)
        invariant
            at <= out@.len(),
            start == out@.unref(),
            tail == start.skip(at as int),
            inserted(start.take(at as int), *x) + tail == inserted(start, *x),
        decreases at,
    {
        proof {
            let front = start.take(at as int);
            assert(front.last() == *out@[at - 1]);
            assert(front.drop_last() =~= start.take(at - 1));
            assert(inserted(front, *x) == inserted(front.drop_last(), *x).push(front.last()));
            let longer = start.skip(at - 1);
            assert(longer =~= seq![front.last()] + tail);
            assert(inserted(front.drop_last(), *x) + longer =~= inserted(front, *x) + tail);
            tail = longer;
        }
        at = at - 1;
    }
    proof {
        let front = start.take(at as int);
        if at > 0 {
            assert(front.last() == *out@[at - 1]);
        }
        assert(inserted(front, *x) == front.push(*x));
    }
    out.insert(at, x);
    proof {
        assert(out@.unref() =~= start.take(at as int).push(*x) + tail);
    }
}

/// Sorts references by the rank of what they point to.
pub fn sort_ranked<'a, T: Ranked>(items: &Vec<&'a T>) -> (r: Vec<&'a T>)
    ensures
        r@.unref() == ranked(items@.unref()),
{
    let mut out: Vec<&'a T> = Vec::new();
    let mut i: usize = 0;
    let ghost all = items@.unref();
    proof {
        assert(out@.unref() =~= ranked(all.take(0)));
    }
    while i < items.len()
        invariant
            i <= items@.len(),
            all == items@.unref(),
            out@.unref() == ranked(all.take(i as int)),
        decreases items@.len() - i,
    {
        insert_ranked(&mut out, items[i]);
        proof {
            let next = all.take(i + 1);
            assert(next.drop_last() =~= all.take(i as int));
            assert(next.last() == all[i as int]);
        }
        i = i + 1;
    }
    proof {
        assert(all.take(all.len() as int) =~= all);
    }
    out
}

} // verus!
