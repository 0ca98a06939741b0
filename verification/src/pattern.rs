//! Search patterns with wildcards.
use vstd::prelude::*;
use crate::text::{ascii_lower, chars_of, to_ascii_lower};

verus! {

/// The text matches the pattern, where `%` stands for any characters, `_` for
/// any one character, and ASCII letters for themselves in either case.
pub open spec fn like(p: Seq<char>, s: Seq<char>) -> bool
    decreases p.len(), s.len(),
{
    if p.len() == 0 {
        s.len() == 0
    } else if p[0] == '%' {
        like(p.skip(1), s) || (s.len() > 0 && like(p, s.skip(1)))
    } else {
        s.len() > 0 && (p[0] == '_' || ascii_lower(p[0]) == ascii_lower(s[0])) && like(
            p.skip(1),
            s.skip(1),
        )
    }
}

/// The pattern that finds a text anywhere.
pub open spec fn anywhere(query: Seq<char>) -> Seq<char> {
    seq!['%'] + query + seq!['%']
}

/// Whether the text matches the pattern.
pub fn matches_like(pattern: &str, text: &str) -> (r: bool)
    ensures
        r == like(pattern@, text@),
{
    let p = chars_of(pattern);
    let s = chars_of(text);
    let n: usize = s.len();
    let mut row: Vec<bool> = Vec::new();
    for j in 0..n
        invariant
            s@.len() == n,
            row@.len() == j,
            forall|k: int| 0 <= k < j ==> #[trigger] row@[k] == like(Seq::empty(), s@.skip(k)),
    {
        row.push(false);
    }
    row.push(true);
    assert forall|k: int| 0 <= k <= n implies #[trigger] row@[k] == like(
        p@.skip(p@.len() as int),
        s@.skip(k),
    ) by {
        assert(p@.skip(p@.len() as int) =~= Seq::empty());
    }
    let mut i: usize = p.len();
    while i > 0
        invariant
            i <= p.len(),
            n == s.len(),
            row@.len() == n + 1,
            forall|k: int| 0 <= k <= n ==> #[trigger] row@[k] == like(p@.skip(i as int), s@.skip(k)),
        decreases i,
    {
        i = i - 1;
        let c = p[i];
        let ghost before = row@;
        let ghost rest = p@.skip(i as int);
        assert(rest.skip(1) =~= p@.skip(i + 1));
        let mut j: usize = 0;
        if c == '%' {
            j = n;
            while j > 0
                invariant
                    j <= n == s.len(),
                    row@.len() == n + 1,
                    before.len() == n + 1,
                    rest.len() > 0,
                    rest[0] == '%',
                    forall|k: int|
                        0 <= k <= n ==> #[trigger] before[k] == like(rest.skip(1), s@.skip(k)),
                    forall|k: int| 0 <= k < j ==> row@[k] == #[trigger] before[k],
                    forall|k: int| j <= k <= n ==> #[trigger] row@[k] == like(rest, s@.skip(k)),
                decreases j,
            {
                j = j - 1;
                let hit = row[j] || row[j + 1];
                row.set(j, hit);
                assert(before[j as int] == like(rest.skip(1), s@.skip(j as int)));
                assert(s@.skip(j as int).skip(1) =~= s@.skip(j + 1));
            }
        } else {
            while j < n
                invariant
                    j <= n == s.len(),
                    row@.len() == n + 1,
                    before.len() == n + 1,
                    rest.len() > 0,
                    rest[0] == c,
                    c != '%',
                    forall|k: int|
                        0 <= k <= n ==> #[trigger] before[k] == like(rest.skip(1), s@.skip(k)),
                    forall|k: int| j <= k <= n ==> row@[k] == #[trigger] before[k],
                    forall|k: int| 0 <= k < j ==> #[trigger] row@[k] == like(rest, s@.skip(k)),
                decreases n - j,
            {
                let hit = (c == '_' || to_ascii_lower(c) == to_ascii_lower(s[j])) && row[j + 1];
                row.set(j, hit);
                assert(before[j + 1] == like(rest.skip(1), s@.skip(j + 1)));
                assert(s@.skip(j as int).skip(1) =~= s@.skip(j + 1));
                j = j + 1;
            }
            row.set(n, false);
            assert(s@.skip(n as int).len() == 0);
        }
    }
    assert(p@.skip(0) =~= p@);
    assert(s@.skip(0) =~= s@);
    row[0]
}

// ---------------------------------------------------------------------------
// Laws
// ---------------------------------------------------------------------------

/// The text stands at this position, in either case of ASCII letters.
pub open spec fn stands_at(s: Seq<char>, q: Seq<char>, i: int) -> bool {
    &&& 0 <= i
    &&& i + q.len() <= s.len()
    &&& forall|k: int|
        0 <= k < q.len() ==> ascii_lower(#[trigger] q[k]) == ascii_lower(s[i + k])
}

proof fn lemma_any(s: Seq<char>)
    ensures
        like(seq!['%'], s),
    decreases s.len(),
{
    let p = seq!['%'];
    assert(p.skip(1) =~= Seq::empty());
    if s.len() > 0 {
        lemma_any(s.skip(1));
    } else {
        assert(like(p.skip(1), s));
    }
}

/// A plain text followed by anything is found where the text stands at the
/// beginning.
proof fn lemma_plain_start(q: Seq<char>, s: Seq<char>)
    requires
        forall|k: int| 0 <= k < q.len() ==> #[trigger] q[k] != '%' && q[k] != '_',
    ensures
        like(q + seq!['%'], s) == stands_at(s, q, 0),
    decreases q.len(),
{
    let p = q + seq!['%'];
    if q.len() == 0 {
        assert(p =~= seq!['%']);
        lemma_any(s);
    } else {
        assert(p[0] == q[0]);
        assert(p.skip(1) =~= q.skip(1) + seq!['%']);
        assert forall|k: int| 0 <= k < q.skip(1).len() implies #[trigger] q.skip(1)[k] != '%'
            && q.skip(1)[k] != '_' by {
            assert(q.skip(1)[k] == q[k + 1]);
        }
        lemma_plain_start(q.skip(1), s.skip(1));
        if s.len() > 0 {
            if stands_at(s, q, 0) {
                assert(ascii_lower(q[0]) == ascii_lower(s[0int + 0]));
                assert forall|k: int| 0 <= k < q.skip(1).len() implies ascii_lower(
                    #[trigger] q.skip(1)[k],
                ) == ascii_lower(s.skip(1)[0int + k]) by {
                    assert(ascii_lower(q[k + 1]) == ascii_lower(s[0int + (k + 1)]));
                }
            }
            if ascii_lower(q[0]) == ascii_lower(s[0]) && stands_at(s.skip(1), q.skip(1), 0) {
                assert forall|k: int| 0 <= k < q.len() implies ascii_lower(#[trigger] q[k])
                    == ascii_lower(s[0int + k]) by {
                    if k > 0 {
                        assert(q.skip(1)[k - 1] == q[k]);
                        assert(ascii_lower(q.skip(1)[k - 1]) == ascii_lower(s.skip(1)[0int + (k - 1)]));
                    }
                }
            }
        }
    }
}

proof fn lemma_plain_anywhere(q: Seq<char>, s: Seq<char>)
    requires
        forall|k: int| 0 <= k < q.len() ==> #[trigger] q[k] != '%' && q[k] != '_',
    ensures
        like(anywhere(q), s) <==> exists|i: int| stands_at(s, q, i),
    decreases s.len(),
{
    let p = anywhere(q);
    assert(p.skip(1) =~= q + seq!['%']);
    lemma_plain_start(q, s);
    if s.len() > 0 {
        lemma_plain_anywhere(q, s.skip(1));
    }
    if like(p, s) && !stands_at(s, q, 0) {
        let i = choose|i: int| stands_at(s.skip(1), q, i);
        assert forall|k: int| 0 <= k < q.len() implies ascii_lower(#[trigger] q[k]) == ascii_lower(
            s[i + 1 + k],
        ) by {
            assert(ascii_lower(q[k]) == ascii_lower(s.skip(1)[i + k]));
        }
        assert(stands_at(s, q, i + 1));
    }
    if exists|i: int| stands_at(s, q, i) {
        let i = choose|i: int| stands_at(s, q, i);
        if i > 0 {
            assert forall|k: int| 0 <= k < q.len() implies ascii_lower(#[trigger] q[k])
                == ascii_lower(s.skip(1)[i - 1 + k]) by {
                assert(ascii_lower(q[k]) == ascii_lower(s[i + k]));
            }
            assert(stands_at(s.skip(1), q, i - 1));
        }
    }
}

/// A search without wildcards finds the texts in which what is searched stands
/// somewhere, in either case of ASCII letters.
pub proof fn law_plain_search(q: Seq<char>, s: Seq<char>)
    requires
        forall|k: int| 0 <= k < q.len() ==> #[trigger] q[k] != '%' && q[k] != '_',
    ensures
        like(anywhere(q), s) <==> exists|i: int| stands_at(s, q, i),
{
    lemma_plain_anywhere(q, s);
}

} // verus!
