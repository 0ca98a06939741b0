//! Stable sorting.
use vstd::prelude::*;

verus! {

/// The views of a sequence.
pub open spec fn views<T: View>(s: Seq<T>) -> Seq<T::V> {
    Seq::new(s.len(), |i: int| s[i]@)
}

/// `x` put behind the last element of `s` that may stand before it.
pub open spec fn inserted<A>(s: Seq<A>, x: A, le: spec_fn(A, A) -> bool) -> Seq<A>
    decreases s.len(),
{
    if s.len() == 0 || le(s.last(), x) {
        s.push(x)
    } else {
        inserted(s.drop_last(), x, le).push(s.last())
    }
}

/// The elements of `s` in the order `le`; those that `le` cannot tell apart
/// stay in the order in which they stood.
pub open spec fn sorted<A>(s: Seq<A>, le: spec_fn(A, A) -> bool) -> Seq<A>
    decreases s.len(),
{
    if s.len() == 0 {
        s
    } else {
        inserted(sorted(s.drop_last(), le), s.last(), le)
    }
}

/// No element stands before one that should precede it.
pub open spec fn is_sorted<A>(s: Seq<A>, le: spec_fn(A, A) -> bool) -> bool {
    forall|i: int, j: int| 0 <= i <= j < s.len() ==> #[trigger] le(s[i], s[j])
}

/// `le` is total and transitive.
pub open spec fn is_order<A>(le: spec_fn(A, A) -> bool) -> bool {
    &&& forall|a: A, b: A| #[trigger] le(a, b) || le(b, a)
    &&& forall|a: A, b: A, c: A| #[trigger] le(a, b) && #[trigger] le(b, c) ==> le(a, c)
}

/// What is inserted is there, with all that was there.
pub proof fn lemma_inserted<A>(s: Seq<A>, x: A, le: spec_fn(A, A) -> bool)
    ensures
        inserted(s, x, le).len() == s.len() + 1,
        inserted(s, x, le).to_multiset() == s.to_multiset().insert(x),
        is_order(le) && is_sorted(s, le) ==> is_sorted(inserted(s, x, le), le),
        forall|i: int|
            0 <= i < s.len() + 1 ==> #[trigger] inserted(s, x, le)[i] == x || exists|k: int|
                0 <= k < s.len() && inserted(s, x, le)[i] == s[k],
    decreases s.len(),
{
    broadcast use vstd::seq_lib::group_to_multiset_ensures;

    let r = inserted(s, x, le);
    if s.len() == 0 || le(s.last(), x) {
        assert(r == s.push(x));
        assert forall|i: int| 0 <= i < s.len() + 1 implies #[trigger] r[i] == x || exists|k: int|
            0 <= k < s.len() && r[i] == s[k] by {
            if i < s.len() {
                assert(r[i] == s[i]);
            }
        }
        if is_order(le) && is_sorted(s, le) {
            assert forall|i: int, j: int| 0 <= i <= j < r.len() implies #[trigger] le(r[i], r[j]) by {
                assert(le(r[i], r[i]) || le(r[i], r[i]));
                if j == s.len() && i < s.len() {
                    assert(le(s[i], s[s.len() - 1]));
                }
            }
        }
    } else {
        let front = s.drop_last();
        let rest = inserted(front, x, le);
        lemma_inserted(front, x, le);
        assert(s =~= front.push(s.last()));
        assert(r.to_multiset() =~= s.to_multiset().insert(x));
        assert forall|i: int| 0 <= i < s.len() + 1 implies #[trigger] r[i] == x || exists|k: int|
            0 <= k < s.len() && r[i] == s[k] by {
            if i < rest.len() {
                assert(r[i] == rest[i]);
                if rest[i] != x {
                    let k = choose|k: int| 0 <= k < front.len() && rest[i] == front[k];
                    assert(s[k] == front[k]);
                }
            } else {
                assert(r[i] == s[s.len() - 1]);
            }
        }
        if is_order(le) && is_sorted(s, le) {
            assert(is_sorted(front, le)) by {
                assert forall|i: int, j: int| 0 <= i <= j < front.len() implies #[trigger] le(
                    front[i],
                    front[j],
                ) by {
                    assert(le(s[i], s[j]));
                }
            }
            assert forall|i: int, j: int| 0 <= i <= j < r.len() implies #[trigger] le(r[i], r[j]) by {
                assert(le(r[i], r[i]) || le(r[i], r[i]));
                if j < rest.len() {
                    assert(le(rest[i], rest[j]));
                } else if i < rest.len() {
                    if rest[i] != x {
                        let k = choose|k: int| 0 <= k < front.len() && rest[i] == front[k];
                        assert(le(s[k], s[s.len() - 1]));
                    }
                }
            }
        }
    }
}

/// Sorting keeps exactly the elements and, where the relation is an order,
/// puts them in that order.
pub proof fn law_sorted<A>(s: Seq<A>, le: spec_fn(A, A) -> bool)
    ensures
        sorted(s, le).len() == s.len(),
        sorted(s, le).to_multiset() == s.to_multiset(),
        is_order(le) ==> is_sorted(sorted(s, le), le),
    decreases s.len(),
{
    broadcast use vstd::seq_lib::group_to_multiset_ensures;

    if s.len() > 0 {
        law_sorted(s.drop_last(), le);
        lemma_inserted(sorted(s.drop_last(), le), s.last(), le);
        assert(s =~= s.drop_last().push(s.last()));
    }
}

/// What holds of every element holds of every element after sorting.
pub proof fn lemma_sorted_members<A>(s: Seq<A>, le: spec_fn(A, A) -> bool, p: spec_fn(A) -> bool)
    requires
        forall|i: int| 0 <= i < s.len() ==> p(#[trigger] s[i]),
    ensures
        forall|i: int| 0 <= i < sorted(s, le).len() ==> p(#[trigger] sorted(s, le)[i]),
        sorted(s, le).len() == s.len(),
    decreases s.len(),
{
    if s.len() > 0 {
        lemma_sorted_members(s.drop_last(), le, p);
        lemma_inserted(sorted(s.drop_last(), le), s.last(), le);
    }
}

/// The order `le` on values, told by `f` on references to what they are views of.
pub open spec fn tells<T: View, F: Fn(&T, &T) -> bool>(f: F, le: spec_fn(T::V, T::V) -> bool) -> bool {
    &&& forall|a: &T, b: &T| #[trigger] f.requires((a, b))
    &&& forall|a: &T, b: &T, r: bool| #[trigger] f.ensures((a, b), r) ==> r == le(a@, b@)
}

/// Sorts in the order that `le` tells, keeping the order of equals.
pub fn stable_sort<T: View, F: Fn(&T, &T) -> bool>(
    items: Vec<T>,
    le: F,
    Ghost(order): Ghost<spec_fn(T::V, T::V) -> bool>,
) -> (r: Vec<T>)
    requires
        tells(le, order),
    ensures
        views(r@) == sorted(views(items@), order),
{
    let mut r: Vec<T> = Vec::new();
    let ghost all = views(items@);
    for x in it: items
        invariant
            tells(le, order),
            all == views(it.seq()),
            views(r@) == sorted(all.take(it.index()), order),
    {
        let ghost before = views(r@);
        let ghost k = it.index();
        assert(all.take(k + 1).drop_last() =~= all.take(k));
        assert(all[k] == x@);
        let mut at: usize = r.len();
        let ghost mut tail: Seq<T::V> = Seq::empty();
        assert(before.take(at as int) =~= before);
        while at > 0 && !le(&r[at - 1], &x)
            invariant
                tells(le, order),
                at <= r.len(),
                before == views(r@),
                tail == before.skip(at as int),
                inserted(before, x@, order) == inserted(before.take(at as int), x@, order) + tail,
            decreases at,
        {
            proof {
                let front = before.take(at as int);
                assert(front.drop_last() =~= before.take(at - 1));
                assert(front.last() == r@[at - 1]@);
                assert(inserted(front, x@, order) + tail =~= inserted(
                    before.take(at - 1),
                    x@,
                    order,
                ) + (seq![front.last()] + tail));
                assert(seq![front.last()] + tail =~= before.skip(at - 1));
                tail = before.skip(at - 1);
            }
            at = at - 1;
        }
        assert(at > 0 ==> before.take(at as int).last() == r@[at - 1]@);
        assert(inserted(before, x@, order) =~= before.take(at as int).push(x@) + tail);
        r.insert(at, x);
        assert(views(r@) =~= before.take(at as int).push(x@) + tail);
    }
    assert(all.take(all.len() as int) =~= all);
    r
}

} // verus!
