//! What holds of the order of conversations.
use vstd::prelude::*;
use crate::db::is_conversation;
use crate::db::ordering::{
    comes_first, exchanged, neighbour, new_order, numbered, place, position, shifted,
};
use crate::db::soundness::{conversation_key, distinct};
use crate::models::ConversationRow;
use crate::sorting::{inserted, is_order, law_sorted, lemma_inserted, lemma_sorted_members, sorted};
use crate::table::{first_where, lemma_first_where};
use crate::text::{law_text_order_total, law_text_order_transitive, text_le};

verus! {

// ---------------------------------------------------------------------------
// Sorting rows with different keys
// ---------------------------------------------------------------------------

/// What was there is there after sorting.
pub proof fn lemma_sorted_has<A>(s: Seq<A>, le: spec_fn(A, A) -> bool, i: int) -> (k: int)
    requires
        0 <= i < s.len(),
    ensures
        0 <= k < sorted(s, le).len(),
        sorted(s, le)[k] == s[i],
{
    broadcast use vstd::seq_lib::group_to_multiset_ensures;

    law_sorted(s, le);
    let t = sorted(s, le);
    assert(s.contains(s[i]));
    assert(s.to_multiset().count(s[i]) > 0);
    assert(t.to_multiset().count(s[i]) > 0);
    assert(t.contains(s[i]));
    choose|k: int| 0 <= k < t.len() && t[k] == s[i]
}

/// What is there after sorting was there.
pub proof fn lemma_sorted_from<A>(s: Seq<A>, le: spec_fn(A, A) -> bool, k: int) -> (i: int)
    requires
        0 <= k < sorted(s, le).len(),
    ensures
        0 <= i < s.len(),
        sorted(s, le)[k] == s[i],
{
    let p = |x: A| s.contains(x);
    assert forall|i: int| 0 <= i < s.len() implies p(#[trigger] s[i]) by {}
    lemma_sorted_members(s, le, p);
    assert(p(sorted(s, le)[k]));
    choose|i: int| 0 <= i < s.len() && s[i] == sorted(s, le)[k]
}

proof fn lemma_distinct_inserted<A, K>(
    s: Seq<A>,
    x: A,
    le: spec_fn(A, A) -> bool,
    key: spec_fn(A) -> K,
)
    requires
        distinct(s, key),
        forall|i: int| 0 <= i < s.len() ==> key(#[trigger] s[i]) != key(x),
    ensures
        distinct(inserted(s, x, le), key),
    decreases s.len(),
{
    let r = inserted(s, x, le);
    if s.len() == 0 || le(s.last(), x) {
        assert forall|i: int, j: int| 0 <= i < j < r.len() implies key(#[trigger] r[i]) != key(
            #[trigger] r[j],
        ) by {
            assert(r[i] == s[i]);
            if j < s.len() {
                assert(r[j] == s[j]);
            }
        }
    } else {
        let front = s.drop_last();
        assert forall|i: int, j: int| 0 <= i < j < front.len() implies key(#[trigger] front[i])
            != key(#[trigger] front[j]) by {
            assert(key(s[i]) != key(s[j]));
        }
        assert forall|i: int| 0 <= i < front.len() implies key(#[trigger] front[i]) != key(x) by {
            assert(front[i] == s[i]);
        }
        lemma_distinct_inserted(front, x, le, key);
        lemma_inserted(front, x, le);
        let t = inserted(front, x, le);
        assert forall|i: int, j: int| 0 <= i < j < r.len() implies key(#[trigger] r[i]) != key(
            #[trigger] r[j],
        ) by {
            assert(r[i] == t[i]);
            if j < t.len() {
                assert(r[j] == t[j]);
            } else {
                assert(r[j] == s[s.len() - 1]);
                if t[i] != x {
                    let k = choose|k: int| 0 <= k < front.len() && t[i] == front[k];
                    assert(key(s[k]) != key(s[s.len() - 1]));
                } else {
                    assert(key(s[s.len() - 1]) != key(x));
                }
            }
        }
    }
}

/// Rows with different keys have them after sorting.
pub proof fn lemma_distinct_sorted<A, K>(
    s: Seq<A>,
    le: spec_fn(A, A) -> bool,
    key: spec_fn(A) -> K,
)
    requires
        distinct(s, key),
    ensures
        distinct(sorted(s, le), key),
    decreases s.len(),
{
    if s.len() > 0 {
        let front = s.drop_last();
        assert forall|i: int, j: int| 0 <= i < j < front.len() implies key(#[trigger] front[i])
            != key(#[trigger] front[j]) by {
            assert(key(s[i]) != key(s[j]));
        }
        lemma_distinct_sorted(front, le, key);
        let t = sorted(front, le);
        assert forall|i: int| 0 <= i < t.len() implies key(#[trigger] t[i]) != key(s.last()) by {
            let k = lemma_sorted_from(front, le, i);
            assert(key(s[k]) != key(s[s.len() - 1]));
        }
        lemma_distinct_inserted(t, s.last(), le, key);
    }
}

// ---------------------------------------------------------------------------
// Numbers
// ---------------------------------------------------------------------------

/// The order in which conversations get new numbers is an order.
pub proof fn law_new_order_is_order()
    ensures
        is_order(new_order()),
{
    let le = new_order();
    assert forall|a: ConversationRow<Seq<char>>, b: ConversationRow<Seq<char>>| #[trigger]
        le(a, b) || le(b, a) by {
        law_text_order_total(a.updated_at, b.updated_at);
        law_text_order_total(a.created_at, b.created_at);
        law_text_order_total(a.id, b.id);
    }
    assert forall|
        a: ConversationRow<Seq<char>>,
        b: ConversationRow<Seq<char>>,
        c: ConversationRow<Seq<char>>,
    | #[trigger] le(a, b) && #[trigger] le(b, c) implies le(a, c) by {
        lemma_comes_first_transitive(a, b, c);
    }
}

proof fn lemma_comes_first_transitive(
    a: ConversationRow<Seq<char>>,
    b: ConversationRow<Seq<char>>,
    c: ConversationRow<Seq<char>>,
)
    requires
        comes_first(a, b),
        comes_first(b, c),
    ensures
        comes_first(a, c),
{
    if a.is_pinned == b.is_pinned && b.is_pinned == c.is_pinned && place(a) == place(b) && place(b)
        == place(c) {
        law_text_order_total(a.updated_at, b.updated_at);
        law_text_order_total(b.updated_at, c.updated_at);
        if text_le(c.updated_at, b.updated_at) && text_le(b.updated_at, a.updated_at) {
            law_text_order_transitive(c.updated_at, b.updated_at, a.updated_at);
        }
        law_text_order_total(a.updated_at, c.updated_at);
        if a.updated_at == b.updated_at && b.updated_at == c.updated_at {
            law_text_order_total(a.created_at, b.created_at);
            law_text_order_total(b.created_at, c.created_at);
            if text_le(c.created_at, b.created_at) && text_le(b.created_at, a.created_at) {
                law_text_order_transitive(c.created_at, b.created_at, a.created_at);
            }
            law_text_order_total(a.created_at, c.created_at);
            if a.created_at == b.created_at && b.created_at == c.created_at {
                law_text_order_transitive(a.id, b.id, c.id);
            }
        }
    }
}

/// The position of a conversation is where it stands in order.
pub proof fn lemma_at_position(rows: Seq<ConversationRow<Seq<char>>>, i: int)
    requires
        distinct(rows, conversation_key()),
        0 <= i < rows.len(),
    ensures
        0 <= position(rows, rows[i].id) < rows.len(),
        sorted(rows, new_order())[position(rows, rows[i].id)] == rows[i],
{
    let all = sorted(rows, new_order());
    law_sorted(rows, new_order());
    let k = lemma_sorted_has(rows, new_order(), i);
    let p = is_conversation(rows[i].id);
    lemma_first_where(all, p);
    assert(p(all[k]));
    let j = first_where(all, p)->0;
    lemma_distinct_sorted(rows, new_order(), conversation_key());
    if j < k {
        assert(conversation_key()(all[j]) != conversation_key()(all[k]));
    } else if k < j {
        assert(conversation_key()(all[k]) != conversation_key()(all[j]));
    }
}

/// The numbers are the first ones, each is given once, and pinned conversations
/// have smaller ones than the others.
pub open spec fn well_numbered(rows: Seq<ConversationRow<Seq<char>>>) -> bool {
    &&& forall|i: int| 0 <= i < rows.len() ==> 1 <= (#[trigger] rows[i]).sort_index <= rows.len()
    &&& forall|i: int, j: int|
        0 <= i < j < rows.len() ==> (#[trigger] rows[i]).sort_index != (
        #[trigger] rows[j]).sort_index
    &&& forall|i: int, j: int|
        0 <= i < rows.len() && 0 <= j < rows.len() && (#[trigger] rows[i]).is_pinned && !(
        #[trigger] rows[j]).is_pinned ==> rows[i].sort_index < rows[j].sort_index
}

/// Numbered conversations have the numbers from one on, each once, pinned ones
/// first, in the order in which they come.
pub proof fn law_numbered(rows: Seq<ConversationRow<Seq<char>>>)
    requires
        distinct(rows, conversation_key()),
        rows.len() < i64::MAX,
    ensures
        well_numbered(numbered(rows)),
        forall|i: int, j: int|
            0 <= i < rows.len() && 0 <= j < rows.len() && (
            #[trigger] numbered(rows)[i]).sort_index < (
            #[trigger] numbered(rows)[j]).sort_index ==> comes_first(rows[i], rows[j]),
{
    let n = numbered(rows);
    let all = sorted(rows, new_order());
    law_new_order_is_order();
    law_sorted(rows, new_order());
    assert forall|i: int| 0 <= i < n.len() implies 1 <= (#[trigger] n[i]).sort_index <= n.len()
        && n[i].sort_index == position(rows, rows[i].id) + 1 by {
        lemma_at_position(rows, i);
    }
    assert forall|i: int, j: int| 0 <= i < j < n.len() implies (#[trigger] n[i]).sort_index != (
    #[trigger] n[j]).sort_index by {
        lemma_at_position(rows, i);
        lemma_at_position(rows, j);
        assert(conversation_key()(rows[i]) != conversation_key()(rows[j]));
    }
    assert forall|i: int, j: int|
        0 <= i < rows.len() && 0 <= j < rows.len() && (#[trigger] n[i]).sort_index < (
        #[trigger] n[j]).sort_index implies comes_first(rows[i], rows[j]) by {
        lemma_at_position(rows, i);
        lemma_at_position(rows, j);
        let a = position(rows, rows[i].id);
        let b = position(rows, rows[j].id);
        assert(new_order()(all[a], all[b]));
    }
    assert forall|i: int, j: int|
        0 <= i < n.len() && 0 <= j < n.len() && (#[trigger] n[i]).is_pinned && !(
        #[trigger] n[j]).is_pinned implies n[i].sort_index < n[j].sort_index by {
        if n[i].sort_index > n[j].sort_index {
            assert(comes_first(rows[j], rows[i]));
        }
        if i < j {
            assert(n[i].sort_index != n[j].sort_index);
        } else if j < i {
            assert(n[j].sort_index != n[i].sort_index);
        }
    }
}

/// A growing row of numbers from zero to its length is that of its positions.
proof fn lemma_growing(h: Seq<int>, k: int)
    requires
        forall|i: int| 0 <= i < h.len() ==> 0 <= #[trigger] h[i] < h.len(),
        forall|i: int, j: int| 0 <= i < j < h.len() ==> #[trigger] h[i] < #[trigger] h[j],
        0 <= k < h.len(),
    ensures
        h[k] == k,
{
    lemma_growing_up(h, k);
    lemma_growing_down(h, k);
}

proof fn lemma_growing_up(h: Seq<int>, k: int)
    requires
        forall|i: int| 0 <= i < h.len() ==> 0 <= #[trigger] h[i] < h.len(),
        forall|i: int, j: int| 0 <= i < j < h.len() ==> #[trigger] h[i] < #[trigger] h[j],
        0 <= k < h.len(),
    ensures
        h[k] >= k,
    decreases k,
{
    if k > 0 {
        lemma_growing_up(h, k - 1);
        assert(h[k - 1] < h[k]);
    } else {
        assert(0 <= h[k]);
    }
}

proof fn lemma_growing_down(h: Seq<int>, k: int)
    requires
        forall|i: int| 0 <= i < h.len() ==> 0 <= #[trigger] h[i] < h.len(),
        forall|i: int, j: int| 0 <= i < j < h.len() ==> #[trigger] h[i] < #[trigger] h[j],
        0 <= k < h.len(),
    ensures
        h[k] <= k,
    decreases h.len() - k,
{
    if k + 1 < h.len() {
        lemma_growing_down(h, k + 1);
        assert(h[k] < h[k + 1]);
    } else {
        assert(h[k] < h.len());
    }
}

/// Conversations that are numbered by their order keep their numbers.
pub proof fn law_numbers_stay(rows: Seq<ConversationRow<Seq<char>>>)
    requires
        distinct(rows, conversation_key()),
        rows.len() < i64::MAX,
        well_numbered(rows),
    ensures
        numbered(rows) == rows,
{
    let all = sorted(rows, new_order());
    law_new_order_is_order();
    law_sorted(rows, new_order());
    lemma_distinct_sorted(rows, new_order(), conversation_key());
    let h = Seq::new(all.len(), |k: int| all[k].sort_index - 1);
    assert forall|k: int| 0 <= k < h.len() implies 0 <= #[trigger] h[k] < h.len() by {
        let i = lemma_sorted_from(rows, new_order(), k);
        assert(1 <= rows[i].sort_index <= rows.len());
    }
    assert forall|k: int, l: int| 0 <= k < l < h.len() implies #[trigger] h[k] < #[trigger] h[l] by {
        let i = lemma_sorted_from(rows, new_order(), k);
        let j = lemma_sorted_from(rows, new_order(), l);
        assert(conversation_key()(all[k]) != conversation_key()(all[l]));
        assert(i != j);
        assert(new_order()(all[k], all[l]));
        assert(comes_first(rows[i], rows[j]));
        assert(1 <= rows[i].sort_index && 1 <= rows[j].sort_index);
        if i < j {
            assert(rows[i].sort_index != rows[j].sort_index);
        } else {
            assert(rows[j].sort_index != rows[i].sort_index);
        }
        if rows[i].is_pinned != rows[j].is_pinned {
            assert(rows[i].is_pinned && !rows[j].is_pinned);
        }
    }
    assert forall|i: int| 0 <= i < rows.len() implies #[trigger] numbered(rows)[i] == rows[i] by {
        lemma_at_position(rows, i);
        let k = position(rows, rows[i].id);
        lemma_growing(h, k);
        assert(h[k] == all[k].sort_index - 1);
    }
    assert(numbered(rows) =~= rows);
}

/// Numbering conversations twice is numbering them once.
pub proof fn law_numbering_twice_is_once(rows: Seq<ConversationRow<Seq<char>>>)
    requires
        distinct(rows, conversation_key()),
        rows.len() < i64::MAX,
    ensures
        numbered(numbered(rows)) == numbered(rows),
{
    law_numbered(rows);
    let n = numbered(rows);
    lemma_numbered_distinct(rows);
    law_numbers_stay(n);
}

/// Numbering keeps the identifiers different.
pub proof fn lemma_numbered_distinct(rows: Seq<ConversationRow<Seq<char>>>)
    requires
        distinct(rows, conversation_key()),
    ensures
        distinct(numbered(rows), conversation_key()),
{
    let n = numbered(rows);
    assert forall|i: int, j: int| 0 <= i < j < n.len() implies conversation_key()(#[trigger] n[i])
        != conversation_key()(#[trigger] n[j]) by {
        assert(conversation_key()(rows[i]) != conversation_key()(rows[j]));
    }
}

// ---------------------------------------------------------------------------
// Moving
// ---------------------------------------------------------------------------

/// The neighbour is the nearest conversation of the group in that direction.
pub proof fn lemma_neighbour(
    rows: Seq<ConversationRow<Seq<char>>>,
    pinned: bool,
    number: i64,
    down: bool,
)
    ensures
        match neighbour(rows, pinned, number, down) {
            Some(k) => {
                &&& 0 <= k < rows.len()
                &&& rows[k].is_pinned == pinned
                &&& if down {
                    rows[k].sort_index > number
                } else {
                    rows[k].sort_index < number
                }
                &&& forall|i: int|
                    0 <= i < rows.len() && (#[trigger] rows[i]).is_pinned == pinned ==> if down {
                        rows[i].sort_index <= number || rows[i].sort_index >= rows[k].sort_index
                    } else {
                        rows[i].sort_index >= number || rows[i].sort_index <= rows[k].sort_index
                    }
            },
            None => forall|i: int|
                0 <= i < rows.len() && (#[trigger] rows[i]).is_pinned == pinned ==> if down {
                    rows[i].sort_index <= number
                } else {
                    rows[i].sort_index >= number
                },
        },
    decreases rows.len(),
{
    if rows.len() > 0 {
        let front = rows.drop_last();
        lemma_neighbour(front, pinned, number, down);
        assert forall|i: int| 0 <= i < front.len() implies front[i] == #[trigger] rows[i] by {}
    }
}

/// Moving a conversation exchanges its number with that of its neighbour and
/// changes nothing else; without a neighbour nothing moves.
pub proof fn law_move_exchanges_neighbours(
    rows: Seq<ConversationRow<Seq<char>>>,
    i: int,
    down: bool,
)
    requires
        distinct(rows, conversation_key()),
        rows.len() < i64::MAX,
        0 <= i < rows.len(),
    ensures
        ({
            let all = numbered(rows);
            match neighbour(all, all[i].is_pinned, all[i].sort_index, down) {
                Some(j) => shifted(rows, rows[i].id, down) == exchanged(all, i, j),
                None => shifted(rows, rows[i].id, down) == all,
            }
        }),
{
    let all = numbered(rows);
    law_numbered(rows);
    lemma_numbered_distinct(rows);
    lemma_found_at(all, i);
    let number = all[i].sort_index;
    lemma_neighbour(all, all[i].is_pinned, number, down);
    match neighbour(all, all[i].is_pinned, number, down) {
        Some(j) => {
            lemma_exchanged(all, i, j);
            law_numbers_stay(exchanged(all, i, j));
        },
        None => {},
    }
}

/// A conversation is found by its identifier.
pub proof fn lemma_found_at(rows: Seq<ConversationRow<Seq<char>>>, i: int)
    requires
        distinct(rows, conversation_key()),
        0 <= i < rows.len(),
    ensures
        first_where(rows, is_conversation(rows[i].id)) == Some(i),
{
    let p = is_conversation(rows[i].id);
    lemma_first_where(rows, p);
    assert(p(rows[i]));
    let k = first_where(rows, p)->0;
    if k < i {
        assert(conversation_key()(rows[k]) != conversation_key()(rows[i]));
    } else if i < k {
        assert(conversation_key()(rows[i]) != conversation_key()(rows[k]));
    }
}

/// Exchanging the numbers of two conversations of a group keeps everything in
/// order.
pub proof fn lemma_exchanged(rows: Seq<ConversationRow<Seq<char>>>, i: int, j: int)
    requires
        distinct(rows, conversation_key()),
        well_numbered(rows),
        0 <= i < rows.len(),
        0 <= j < rows.len(),
        rows[i].is_pinned == rows[j].is_pinned,
        rows[i].sort_index != rows[j].sort_index,
    ensures
        distinct(exchanged(rows, i, j), conversation_key()),
        well_numbered(exchanged(rows, i, j)),
        exchanged(rows, i, j).len() == rows.len(),
{
    let ex = exchanged(rows, i, j);
    let partner = |k: int|
        if k == i {
            j
        } else if k == j {
            i
        } else {
            k
        };
    assert forall|k: int| 0 <= k < ex.len() implies (#[trigger] ex[k]).id == rows[k].id
        && ex[k].is_pinned == rows[k].is_pinned && ex[k].sort_index
        == rows[partner(k)].sort_index by {}
    assert forall|a: int, b: int| 0 <= a < b < ex.len() implies conversation_key()(#[trigger] ex[a])
        != conversation_key()(#[trigger] ex[b]) by {
        assert(conversation_key()(rows[a]) != conversation_key()(rows[b]));
    }
    assert forall|a: int, b: int| 0 <= a < b < ex.len() implies (#[trigger] ex[a]).sort_index != (
    #[trigger] ex[b]).sort_index by {
        let pa = partner(a);
        let pb = partner(b);
        if pa < pb {
            assert(rows[pa].sort_index != rows[pb].sort_index);
        } else {
            assert(rows[pb].sort_index != rows[pa].sort_index);
        }
    }
    assert forall|a: int, b: int|
        0 <= a < ex.len() && 0 <= b < ex.len() && (#[trigger] ex[a]).is_pinned && !(
        #[trigger] ex[b]).is_pinned implies ex[a].sort_index < ex[b].sort_index by {
        assert(rows[partner(a)].is_pinned);
        assert(!rows[partner(b)].is_pinned);
    }
}

/// Moving a conversation and moving it back leaves the order as it was.
pub proof fn law_moving_back_restores(rows: Seq<ConversationRow<Seq<char>>>, i: int, down: bool)
    requires
        distinct(rows, conversation_key()),
        rows.len() < i64::MAX,
        0 <= i < rows.len(),
        neighbour(
            numbered(rows),
            numbered(rows)[i].is_pinned,
            numbered(rows)[i].sort_index,
            down,
        ) is Some,
    ensures
        shifted(shifted(rows, rows[i].id, down), rows[i].id, !down) == numbered(rows),
{
    let all = numbered(rows);
    law_numbered(rows);
    lemma_numbered_distinct(rows);
    let pinned = all[i].is_pinned;
    let number = all[i].sort_index;
    lemma_neighbour(all, pinned, number, down);
    let j = neighbour(all, pinned, number, down)->0;
    law_move_exchanges_neighbours(rows, i, down);
    let ex = exchanged(all, i, j);
    lemma_exchanged(all, i, j);
    law_numbers_stay(ex);
    law_move_exchanges_neighbours(ex, i, !down);
    lemma_neighbour(ex, pinned, ex[i].sort_index, !down);
    assert(ex[j].sort_index == number);
    assert(ex[i].sort_index == all[j].sort_index);
    match neighbour(ex, pinned, ex[i].sort_index, !down) {
        Some(k) => {
            if k != j {
                assert(ex[k].sort_index == all[k].sort_index || k == i);
                assert(all[k].is_pinned == pinned);
                assert(ex[j].is_pinned == pinned);
                if k < j {
                    assert(ex[k].sort_index != ex[j].sort_index);
                } else {
                    assert(ex[j].sort_index != ex[k].sort_index);
                }
            }
            assert(exchanged(ex, i, j) =~= all);
        },
        None => {
            assert(ex[j].is_pinned == pinned);
        },
    }
}

} // verus!
