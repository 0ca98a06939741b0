//! Rows in the order in which they were added, and how they are selected,
//! changed and removed.
use vstd::prelude::*;
use crate::sorting::views;

verus! {

/// A row that can be copied.
pub trait Record: View + Sized {
    /// A copy with the same view.
    fn copied(&self) -> (r: Self)
        ensures
            r@ == self@,
    ;
}

/// The position of the first element for which `p` holds.
pub open spec fn first_where<A>(s: Seq<A>, p: spec_fn(A) -> bool) -> Option<int>
    decreases s.len(),
{
    if s.len() == 0 {
        None
    } else {
        match first_where(s.drop_last(), p) {
            Some(i) => Some(i),
            None => if p(s.last()) {
                Some(s.len() - 1)
            } else {
                None
            },
        }
    }
}

/// The first element for which `p` holds.
pub open spec fn first_row<A>(s: Seq<A>, p: spec_fn(A) -> bool) -> Option<A> {
    match first_where(s, p) {
        Some(i) => Some(s[i]),
        None => None,
    }
}

/// Every element for which `p` holds, changed by `f`.
pub open spec fn changed<A>(s: Seq<A>, p: spec_fn(A) -> bool, f: spec_fn(A) -> A) -> Seq<A> {
    Seq::new(s.len(), |i: int| if p(s[i]) { f(s[i]) } else { s[i] })
}

/// The first `n` elements; all of them where `n` is negative.
pub open spec fn limited<A>(s: Seq<A>, n: int) -> Seq<A> {
    if n < 0 || s.len() <= n {
        s
    } else {
        s.take(n)
    }
}

/// `first_where` finds the first element for which `p` holds.
pub proof fn lemma_first_where<A>(s: Seq<A>, p: spec_fn(A) -> bool)
    ensures
        match first_where(s, p) {
            Some(i) => 0 <= i < s.len() && p(s[i]) && forall|j: int| 0 <= j < i ==> !p(s[j]),
            None => forall|j: int| 0 <= j < s.len() ==> !p(#[trigger] s[j]),
        },
    decreases s.len(),
{
    if s.len() > 0 {
        lemma_first_where(s.drop_last(), p);
        match first_where(s.drop_last(), p) {
            Some(i) => {
                assert(s.drop_last()[i] == s[i]);
                assert forall|j: int| 0 <= j < i implies !p(s[j]) by {
                    assert(s.drop_last()[j] == s[j]);
                }
            },
            None => {
                assert forall|j: int| 0 <= j < s.len() - 1 implies !p(#[trigger] s[j]) by {
                    assert(s.drop_last()[j] == s[j]);
                }
            },
        }
    }
}

/// `p` on values, told by `f` on references to what they are views of.
pub open spec fn decides<T: View, F: Fn(&T) -> bool>(f: F, p: spec_fn(T::V) -> bool) -> bool {
    &&& forall|a: &T| #[trigger] f.requires((a,))
    &&& forall|a: &T, r: bool| #[trigger] f.ensures((a,), r) ==> r == p(a@)
}

/// `g` on values, computed by `f` on references to what they are views of.
pub open spec fn computes<T: View, F: Fn(&T) -> T>(f: F, g: spec_fn(T::V) -> T::V) -> bool {
    &&& forall|a: &T| #[trigger] f.requires((a,))
    &&& forall|a: &T, r: T| #[trigger] f.ensures((a,), r) ==> r@ == g(a@)
}

/// The position of the first row that `hit` picks.
pub fn find_row<T: View, F: Fn(&T) -> bool>(
    rows: &Vec<T>,
    hit: F,
    Ghost(p): Ghost<spec_fn(T::V) -> bool>,
) -> (r: Option<usize>)
    requires
        decides(hit, p),
    ensures
        match r {
            Some(i) => i < rows.len() && first_where(views(rows@), p) == Some(i as int),
            None => first_where(views(rows@), p) is None,
        },
{
    let ghost all = views(rows@);
    for i in 0..rows.len()
        invariant
            decides(hit, p),
            all == views(rows@),
            first_where(all.take(i as int), p) is None,
    {
        assert(all.take(i + 1).drop_last() =~= all.take(i as int));
        if hit(&rows[i]) {
            proof {
                lemma_first_where(all, p);
                lemma_first_where(all.take(i + 1), p);
                assert(all[i as int] == rows@[i as int]@);
                lemma_first_where(all.take(i as int), p);
                assert forall|j: int| 0 <= j < i implies !p(all[j]) by {
                    assert(all.take(i as int)[j] == all[j]);
                }
            }
            return Some(i);
        }
    }
    assert(all.take(rows@.len() as int) =~= all);
    None
}

/// Copies of the rows that `keep` picks.
pub fn select<T: Record, F: Fn(&T) -> bool>(
    rows: &Vec<T>,
    keep: F,
    Ghost(p): Ghost<spec_fn(T::V) -> bool>,
) -> (r: Vec<T>)
    requires
        decides(keep, p),
    ensures
        views(r@) == views(rows@).filter(p),
{
    let ghost all = views(rows@);
    let mut r: Vec<T> = Vec::new();
    proof {
        reveal(Seq::filter);
    }
    for i in 0..rows.len()
        invariant
            decides(keep, p),
            all == views(rows@),
            views(r@) == all.take(i as int).filter(p),
    {
        proof {
            reveal(Seq::filter);
            assert(all.take(i + 1).drop_last() =~= all.take(i as int));
            assert(all.take(i + 1).last() == rows@[i as int]@);
        }
        if keep(&rows[i]) {
            let x = rows[i].copied();
            let ghost next = views(r@).push(x@);
            r.push(x);
            assert(views(r@) =~= next);
        }
    }
    assert(all.take(rows@.len() as int) =~= all);
    r
}

/// How many rows `hit` picks.
pub fn count_rows<T: View, F: Fn(&T) -> bool>(
    rows: &Vec<T>,
    hit: F,
    Ghost(p): Ghost<spec_fn(T::V) -> bool>,
) -> (n: usize)
    requires
        decides(hit, p),
    ensures
        n == views(rows@).filter(p).len(),
{
    let ghost all = views(rows@);
    let mut n: usize = 0;
    proof {
        reveal(Seq::filter);
    }
    for i in 0..rows.len()
        invariant
            decides(hit, p),
            all == views(rows@),
            n <= i,
            n == all.take(i as int).filter(p).len(),
    {
        proof {
            reveal(Seq::filter);
            assert(all.take(i + 1).drop_last() =~= all.take(i as int));
            assert(all.take(i + 1).last() == rows@[i as int]@);
        }
        if hit(&rows[i]) {
            n = n + 1;
        }
    }
    assert(all.take(rows@.len() as int) =~= all);
    n
}

/// Removes the rows that `keep` does not pick.
pub fn keep_rows<T: View, F: Fn(&T) -> bool>(
    rows: &mut Vec<T>,
    keep: F,
    Ghost(p): Ghost<spec_fn(T::V) -> bool>,
)
    requires
        decides(keep, p),
    ensures
        views(final(rows)@) == views(old(rows)@).filter(p),
{
    let mut before: Vec<T> = Vec::new();
    std::mem::swap(&mut before, rows);
    let ghost all = views(before@);
    proof {
        reveal(Seq::filter);
    }
    for x in it: before
        invariant
            decides(keep, p),
            all == views(it.seq()),
            views(rows@) == all.take(it.index()).filter(p),
    {
        proof {
            reveal(Seq::filter);
            assert(all.take(it.index() + 1).drop_last() =~= all.take(it.index()));
            assert(all.take(it.index() + 1).last() == x@);
        }
        if keep(&x) {
            let ghost next = views(rows@).push(x@);
            rows.push(x);
            assert(views(rows@) =~= next);
        }
    }
    assert(all.take(all.len() as int) =~= all);
}

/// Replaces every row that `hit` picks by what `change` makes of it.
pub fn change_rows<T: View, F: Fn(&T) -> bool, G: Fn(&T) -> T>(
    rows: &mut Vec<T>,
    hit: F,
    change: G,
    Ghost(p): Ghost<spec_fn(T::V) -> bool>,
    Ghost(f): Ghost<spec_fn(T::V) -> T::V>,
)
    requires
        decides(hit, p),
        computes(change, f),
    ensures
        views(final(rows)@) == changed(views(old(rows)@), p, f),
{
    let ghost all = views(rows@);
    let n = rows.len();
    for i in 0..n
        invariant
            decides(hit, p),
            computes(change, f),
            n == all.len(),
            rows@.len() == all.len(),
            forall|j: int| 0 <= j < i ==> #[trigger] views(rows@)[j] == changed(all, p, f)[j],
            forall|j: int| i <= j < all.len() ==> #[trigger] views(rows@)[j] == all[j],
    {
        assert(views(rows@)[i as int] == all[i as int]);
        if hit(&rows[i]) {
            let x = change(&rows[i]);
            let ghost before = rows@;
            rows.set(i, x);
            assert forall|j: int| 0 <= j < all.len() && j != i implies #[trigger] views(rows@)[j]
                == views(before)[j] by {}
        }
    }
    assert(views(rows@) =~= changed(all, p, f));
}

/// Keeps the first `n` rows; all of them where `n` is negative.
pub fn limit_rows<T: View>(rows: &mut Vec<T>, n: i64)
    ensures
        views(final(rows)@) == limited(views(old(rows)@), n as int),
{
    let ghost all = views(rows@);
    if n >= 0 && (rows.len() as u64) > (n as u64) {
        rows.truncate(n as usize);
        assert(views(rows@) =~= all.take(n as int));
    }
}

/// The rows from the last to the first.
pub fn reversed<T: View>(rows: Vec<T>) -> (r: Vec<T>)
    ensures
        views(r@) == views(rows@).reverse(),
{
    let ghost all = views(rows@);
    let mut left = rows;
    let mut r: Vec<T> = Vec::new();
    while left.len() > 0
        invariant
            left@.len() <= all.len(),
            views(left@) == all.take(left@.len() as int),
            views(r@) == all.skip(left@.len() as int).reverse(),
        decreases left.len(),
    {
        let ghost n = left@.len() as int;
        let ghost was = views(left@);
        assert(was[n - 1] == all[n - 1]);
        match left.pop() {
            Some(x) => {
                assert(x@ == all[n - 1]);
                let ghost next = views(r@).push(x@);
                r.push(x);
                assert(views(r@) =~= next);
                assert(next =~= all.skip(n - 1).reverse());
                assert(views(left@) =~= all.take(n - 1));
            },
            None => {},
        }
    }
    assert(all.skip(0) =~= all);
    r
}

} // verus!
