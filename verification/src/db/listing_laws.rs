//! What moving and pinning a conversation does to the list that the user sees.
use vstd::prelude::*;
use crate::db::conversations::{
    first_title, found_by, list_order, listed, listed_before, new_conversation, shown_count,
};
use crate::db::order_laws::{
    law_move_exchanges_neighbours, law_moving_back_restores, law_numbered, law_numbers_stay,
    lemma_at_position, lemma_distinct_sorted, lemma_exchanged, lemma_neighbour,
    lemma_numbered_distinct, lemma_sorted_from, well_numbered,
};
use crate::db::ordering::{
    above_all, below_all, comes_first, exchanged, has_room, highest, lowest, neighbour, new_order,
    numbered, pinning, repinned, shifted,
};
use crate::db::soundness::{conversation_key, distinct, lemma_filter_all, lemma_filter_member};
use crate::db::{is_conversation, Tables};
use crate::models::{Conversation, ConversationRow};
use crate::sorting::{inserted, law_sorted, sorted};
use crate::table::{changed, lemma_first_where};
use crate::text::law_text_order_total;

verus! {

// ---------------------------------------------------------------------------
// Numbers that tell the order
// ---------------------------------------------------------------------------

/// The numbers are positive, each is given once, and pinned conversations have
/// smaller ones than the others.
pub open spec fn in_order(rows: Seq<ConversationRow<Seq<char>>>) -> bool {
    &&& forall|i: int| 0 <= i < rows.len() ==> 1 <= (#[trigger] rows[i]).sort_index
    &&& forall|i: int, j: int|
        0 <= i < j < rows.len() ==> (#[trigger] rows[i]).sort_index != (
        #[trigger] rows[j]).sort_index
    &&& forall|i: int, j: int|
        0 <= i < rows.len() && 0 <= j < rows.len() && (#[trigger] rows[i]).is_pinned && !(
        #[trigger] rows[j]).is_pinned ==> rows[i].sort_index < rows[j].sort_index
}

/// The numbers of all conversations tell their order: each is there once, under
/// one identifier.
pub open spec fn is_arranged(rows: Seq<ConversationRow<Seq<char>>>) -> bool {
    &&& distinct(rows, conversation_key())
    &&& in_order(rows)
    &&& rows.len() < i64::MAX
}

/// Conversations are arranged after they were numbered, which is what starting
/// the program, adding, pinning and moving a conversation end with.
pub proof fn law_numbering_arranges(rows: Seq<ConversationRow<Seq<char>>>)
    requires
        distinct(rows, conversation_key()),
        rows.len() < i64::MAX,
    ensures
        is_arranged(numbered(rows)),
        well_numbered(numbered(rows)),
{
    law_numbered(rows);
    lemma_numbered_distinct(rows);
}

/// Conversations that are arranged stay so when some are deleted.
pub proof fn law_deleting_keeps_arrangement(
    rows: Seq<ConversationRow<Seq<char>>>,
    kept: spec_fn(ConversationRow<Seq<char>>) -> bool,
)
    requires
        is_arranged(rows),
    ensures
        is_arranged(rows.filter(kept)),
    decreases rows.len(),
{
    reveal(Seq::filter);
    if rows.len() > 0 {
        let front = rows.drop_last();
        assert forall|i: int| 0 <= i < front.len() implies front[i] == #[trigger] rows[i] by {}
        assert(is_arranged(front)) by {
            assert forall|i: int, j: int| 0 <= i < j < front.len() implies conversation_key()(
                #[trigger] front[i],
            ) != conversation_key()(#[trigger] front[j]) by {
                assert(conversation_key()(rows[i]) != conversation_key()(rows[j]));
            }
            assert forall|i: int, j: int| 0 <= i < j < front.len() implies (
            #[trigger] front[i]).sort_index != (#[trigger] front[j]).sort_index by {
                assert(rows[i].sort_index != rows[j].sort_index);
            }
            assert forall|i: int, j: int|
                0 <= i < front.len() && 0 <= j < front.len() && (#[trigger] front[i]).is_pinned
                    && !(#[trigger] front[j]).is_pinned implies front[i].sort_index
                < front[j].sort_index by {
                assert(rows[i].is_pinned && !rows[j].is_pinned);
            }
            assert forall|i: int| 0 <= i < front.len() implies 1 <= (
            #[trigger] front[i]).sort_index by {
                assert(1 <= rows[i].sort_index);
            }
        }
        law_deleting_keeps_arrangement(front, kept);
        let before = front.filter(kept);
        let all = rows.filter(kept);
        let n = rows.len() - 1;
        if kept(rows.last()) {
            assert(all == before.push(rows[n]));
            lemma_filter_len(front, kept);
            assert forall|k: int| 0 <= k < before.len() implies {
                let c = #[trigger] before[k];
                &&& conversation_key()(c) != conversation_key()(rows[n])
                &&& c.sort_index != rows[n].sort_index
                &&& c.is_pinned && !rows[n].is_pinned ==> c.sort_index < rows[n].sort_index
                &&& !c.is_pinned && rows[n].is_pinned ==> rows[n].sort_index < c.sort_index
            } by {
                let i = lemma_filter_member(front, kept, k);
                assert(before[k] == rows[i]);
                assert(conversation_key()(rows[i]) != conversation_key()(rows[n]));
                assert(rows[i].sort_index != rows[n].sort_index);
            }
            assert(1 <= rows[n].sort_index);
            assert forall|k: int| 0 <= k < before.len() implies #[trigger] all[k] == before[k] by {}
            assert(all[before.len() as int] == rows[n]);
            lemma_one_more(before, rows[n]);
        }
    }
}

/// What is left of a row is no longer than the row.
proof fn lemma_filter_len<A>(s: Seq<A>, p: spec_fn(A) -> bool)
    ensures
        s.filter(p).len() <= s.len(),
    decreases s.len(),
{
    reveal(Seq::filter);
    if s.len() > 0 {
        lemma_filter_len(s.drop_last(), p);
    }
}

/// Arranged conversations with one more that fits in.
proof fn lemma_one_more(
    before: Seq<ConversationRow<Seq<char>>>,
    c: ConversationRow<Seq<char>>,
)
    requires
        is_arranged(before),
        before.len() + 1 < i64::MAX,
        1 <= c.sort_index,
        forall|k: int|
            0 <= k < before.len() ==> {
                let d = #[trigger] before[k];
                &&& conversation_key()(d) != conversation_key()(c)
                &&& d.sort_index != c.sort_index
                &&& d.is_pinned && !c.is_pinned ==> d.sort_index < c.sort_index
                &&& !d.is_pinned && c.is_pinned ==> c.sort_index < d.sort_index
            },
    ensures
        is_arranged(before.push(c)),
{
    let all = before.push(c);
    let n = before.len() as int;
    assert(all[n] == c);
    assert forall|i: int| 0 <= i < n implies #[trigger] all[i] == before[i] by {}
    assert forall|i: int, j: int| 0 <= i < j < all.len() implies conversation_key()(
        #[trigger] all[i],
    ) != conversation_key()(#[trigger] all[j]) by {
        assert(all[i] == before[i]);
        if j < n {
            assert(all[j] == before[j]);
        }
    }
    assert forall|i: int, j: int| 0 <= i < j < all.len() implies (#[trigger] all[i]).sort_index != (
    #[trigger] all[j]).sort_index by {
        assert(all[i] == before[i]);
        if j < n {
            assert(all[j] == before[j]);
        }
    }
    assert forall|i: int, j: int|
        0 <= i < all.len() && 0 <= j < all.len() && (#[trigger] all[i]).is_pinned && !(
        #[trigger] all[j]).is_pinned implies all[i].sort_index < all[j].sort_index by {
        if i < n {
            assert(all[i] == before[i]);
        }
        if j < n {
            assert(all[j] == before[j]);
        }
    }
    assert forall|i: int| 0 <= i < all.len() implies 1 <= (#[trigger] all[i]).sort_index by {
        if i < n {
            assert(all[i] == before[i]);
        }
    }
}

// ---------------------------------------------------------------------------
// The list
// ---------------------------------------------------------------------------

/// Two orders that agree on what is inserted insert it in the same place.
proof fn lemma_inserted_agree<A>(
    s: Seq<A>,
    x: A,
    le: spec_fn(A, A) -> bool,
    other: spec_fn(A, A) -> bool,
)
    requires
        forall|i: int| 0 <= i < s.len() ==> #[trigger] le(s[i], x) == other(s[i], x),
    ensures
        inserted(s, x, le) == inserted(s, x, other),
    decreases s.len(),
{
    if s.len() > 0 {
        assert(le(s[s.len() - 1], x) == other(s[s.len() - 1], x));
        let front = s.drop_last();
        assert forall|i: int| 0 <= i < front.len() implies #[trigger] le(front[i], x) == other(
            front[i],
            x,
        ) by {
            assert(front[i] == s[i]);
            assert(le(s[i], x) == other(s[i], x));
        }
        lemma_inserted_agree(front, x, le, other);
    }
}

/// Two orders that agree on all rows sort them alike.
proof fn lemma_sorted_agree<A>(
    s: Seq<A>,
    le: spec_fn(A, A) -> bool,
    other: spec_fn(A, A) -> bool,
)
    requires
        forall|i: int, j: int|
            0 <= i < s.len() && 0 <= j < s.len() ==> #[trigger] le(s[i], s[j]) == other(s[i], s[j]),
    ensures
        sorted(s, le) == sorted(s, other),
    decreases s.len(),
{
    if s.len() > 0 {
        let front = s.drop_last();
        assert forall|i: int, j: int| 0 <= i < front.len() && 0 <= j < front.len() implies (
        #[trigger] le(front[i], front[j])) == other(front[i], front[j]) by {
            assert(le(s[i], s[j]) == other(s[i], s[j]));
        }
        lemma_sorted_agree(front, le, other);
        let t = sorted(front, le);
        let n = s.len() - 1;
        assert forall|k: int| 0 <= k < t.len() implies #[trigger] le(t[k], s[n]) == other(
            t[k],
            s[n],
        ) by {
            let i = lemma_sorted_from(front, le, k);
            assert(t[k] == s[i]);
            assert(le(s[i], s[n]) == other(s[i], s[n]));
        }
        lemma_inserted_agree(t, s[n], le, other);
    }
}

/// The conversations in the order in which they are listed.
pub open spec fn in_list(rows: Seq<ConversationRow<Seq<char>>>) -> Seq<ConversationRow<Seq<char>>> {
    sorted(rows, list_order())
}

/// A conversation as it is listed.
pub open spec fn shown_in(t: Tables, c: ConversationRow<Seq<char>>) -> Conversation<Seq<char>> {
    listed(c, shown_count(t.message_count(c.id)))
}

impl Tables {
    /// All conversations as they are listed.
    pub open spec fn listing(self) -> Seq<Conversation<Seq<char>>> {
        self.found_conversations(""@, -1)
    }
}

/// The list shows every conversation.
proof fn lemma_listing(t: Tables)
    ensures
        t.listing().len() == t.conversations.len(),
        in_list(t.conversations).len() == t.conversations.len(),
        forall|k: int|
            0 <= k < t.conversations.len() ==> #[trigger] t.listing()[k] == shown_in(
                t,
                in_list(t.conversations)[k],
            ),
{
    reveal_strlit("");
    assert(crate::text::trimmed(""@).len() == 0);
    lemma_filter_all(t.conversations, found_by(""@));
    law_sorted(t.conversations, list_order());
}

/// In arranged conversations the list is in the order in which they would get
/// new numbers.
proof fn lemma_list_is_order(rows: Seq<ConversationRow<Seq<char>>>)
    requires
        is_arranged(rows),
    ensures
        in_list(rows) == sorted(rows, new_order()),
{
    assert forall|i: int, j: int| 0 <= i < rows.len() && 0 <= j < rows.len() implies (
    #[trigger] list_order()(rows[i], rows[j])) == new_order()(rows[i], rows[j]) by {
        let a = rows[i];
        let b = rows[j];
        law_text_order_total(a.updated_at, a.updated_at);
        law_text_order_total(a.id, a.id);
        assert(1 <= a.sort_index && 1 <= b.sort_index);
        if i < j {
            assert(rows[i].sort_index != rows[j].sort_index);
        } else if j < i {
            assert(rows[j].sort_index != rows[i].sort_index);
        }
        assert(listed_before(a, b) == comes_first(a, b));
    }
    lemma_sorted_agree(rows, list_order(), new_order());
}

/// Where an arranged conversation stands in the list: at the number that it
/// would get.
proof fn lemma_in_list(rows: Seq<ConversationRow<Seq<char>>>, i: int)
    requires
        is_arranged(rows),
        0 <= i < rows.len(),
    ensures
        1 <= numbered(rows)[i].sort_index <= rows.len(),
        in_list(rows)[numbered(rows)[i].sort_index - 1] == rows[i],
{
    lemma_list_is_order(rows);
    lemma_at_position(rows, i);
}

/// Which conversation stands at a place of the list.
proof fn lemma_from_list(rows: Seq<ConversationRow<Seq<char>>>, k: int) -> (i: int)
    requires
        is_arranged(rows),
        0 <= k < rows.len(),
    ensures
        0 <= i < rows.len(),
        in_list(rows)[k] == rows[i],
        numbered(rows)[i].sort_index == k + 1,
{
    law_sorted(rows, list_order());
    let i = lemma_sorted_from(rows, list_order(), k);
    lemma_in_list(rows, i);
    lemma_distinct_sorted(rows, list_order(), conversation_key());
    let j = numbered(rows)[i].sort_index - 1;
    let all = in_list(rows);
    if j < k {
        assert(conversation_key()(all[j]) != conversation_key()(all[k]));
    } else if k < j {
        assert(conversation_key()(all[k]) != conversation_key()(all[j]));
    }
    i
}

/// The list follows the numbers: where the numbers are those from one on, each
/// conversation stands at its number.
pub proof fn law_listing_follows_numbers(t: Tables, i: int)
    requires
        is_arranged(t.conversations),
        well_numbered(t.conversations),
        0 <= i < t.conversations.len(),
    ensures
        t.listing().len() == t.conversations.len(),
        t.listing()[t.conversations[i].sort_index - 1] == shown_in(t, t.conversations[i]),
{
    lemma_listing(t);
    law_numbers_stay(t.conversations);
    lemma_in_list(t.conversations, i);
}

/// Giving arranged conversations new numbers does not change the list.
pub proof fn law_numbering_keeps_listing(t: Tables)
    requires
        is_arranged(t.conversations),
    ensures
        (Tables { conversations: numbered(t.conversations), ..t }).listing() == t.listing(),
{
    let rows = t.conversations;
    let all = numbered(rows);
    let u = Tables { conversations: all, ..t };
    law_numbering_arranges(rows);
    law_numbers_stay(all);
    lemma_listing(t);
    lemma_listing(u);
    assert forall|k: int| 0 <= k < rows.len() implies #[trigger] u.listing()[k]
        == t.listing()[k] by {
        let i = lemma_from_list(rows, k);
        lemma_in_list(all, i);
        assert(t.listing()[k] == shown_in(t, rows[i]));
    }
    assert(u.listing() =~= t.listing());
}

// ---------------------------------------------------------------------------
// Moving
// ---------------------------------------------------------------------------

/// The place next to `k`.
pub open spec fn beside(k: int, down: bool) -> int {
    if down {
        k + 1
    } else {
        k - 1
    }
}

/// There is a conversation of the same group next to the one at `k`.
pub open spec fn can_move(list: Seq<Conversation<Seq<char>>>, k: int, down: bool) -> bool {
    &&& 0 <= beside(k, down) < list.len()
    &&& list[beside(k, down)].is_pinned == list[k].is_pinned
}

/// A list in which two neighbours changed places.
pub open spec fn swapped(list: Seq<Conversation<Seq<char>>>, k: int, down: bool) -> Seq<
    Conversation<Seq<char>>,
> {
    list.update(k, list[beside(k, down)]).update(beside(k, down), list[k])
}

/// The neighbour of a conversation is the one next to it in the list, where that
/// is of the same group.
proof fn lemma_neighbour_is_beside(
    rows: Seq<ConversationRow<Seq<char>>>,
    i: int,
    down: bool,
)
    requires
        is_arranged(rows),
        0 <= i < rows.len(),
    ensures
        ({
            let all = numbered(rows);
            let k = all[i].sort_index - 1;
            let b = beside(k, down);
            match neighbour(all, all[i].is_pinned, all[i].sort_index, down) {
                Some(j) => {
                    &&& 0 <= j < rows.len()
                    &&& j != i
                    &&& 0 <= b < rows.len()
                    &&& all[j].sort_index == b + 1
                    &&& in_list(rows)[b] == rows[j]
                    &&& rows[j].is_pinned == rows[i].is_pinned
                },
                None => !(0 <= b < rows.len()) || in_list(rows)[b].is_pinned != rows[i].is_pinned,
            }
        }),
{
    let all = numbered(rows);
    let pinned = all[i].is_pinned;
    let number = all[i].sort_index;
    let b = beside(number - 1, down);
    law_numbering_arranges(rows);
    lemma_in_list(rows, i);
    lemma_neighbour(all, pinned, number, down);
    let found = neighbour(all, pinned, number, down);
    if found is Some {
        let j = found->0;
        lemma_in_list(rows, j);
    }
    if 0 <= b < rows.len() {
        let m = lemma_from_list(rows, b);
        assert(all[m].is_pinned == rows[m].is_pinned);
        assert(all[i].is_pinned == rows[i].is_pinned);
        match found {
            Some(j) => {
                if all[m].is_pinned != pinned {
                    if pinned {
                        assert(all[j].is_pinned && !all[m].is_pinned);
                        assert(all[i].is_pinned && !all[m].is_pinned);
                    } else {
                        assert(all[m].is_pinned && !all[i].is_pinned);
                        assert(all[m].is_pinned && !all[j].is_pinned);
                    }
                }
                if m < j {
                    assert(all[m].sort_index != all[j].sort_index);
                } else if j < m {
                    assert(all[j].sort_index != all[m].sort_index);
                }
            },
            None => {},
        }
    }
}

/// Moving a conversation lets it change places with the one next to it in the
/// list, and changes nothing else there. At the edge of its group the list stays
/// as it is, so that no move takes a conversation past the pinned ones or among
/// them. Moving it back restores the list.
pub proof fn law_moving_in_the_list(t: Tables, k: int, down: bool)
    requires
        is_arranged(t.conversations),
        0 <= k < t.conversations.len(),
    ensures
        ({
            let list = t.listing();
            let id = list[k].id;
            let once = Tables { conversations: shifted(t.conversations, id, down), ..t };
            let twice = Tables { conversations: shifted(once.conversations, id, !down), ..once };
            &&& list.len() == t.conversations.len()
            &&& can_move(list, k, down) ==> once.listing() == swapped(list, k, down)
                && twice.listing() == list
            &&& !can_move(list, k, down) ==> once.listing() == list
            &&& forall|n: int|
                0 <= n < list.len() ==> #[trigger] once.listing()[n].is_pinned == list[n].is_pinned
        }),
{
    let rows = t.conversations;
    let all = numbered(rows);
    let list = t.listing();
    lemma_listing(t);
    let i = lemma_from_list(rows, k);
    let id = rows[i].id;
    assert(list[k] == shown_in(t, rows[i]));
    let b = beside(k, down);
    let once = Tables { conversations: shifted(rows, id, down), ..t };
    law_numbering_arranges(rows);
    law_numbering_keeps_listing(t);
    law_move_exchanges_neighbours(rows, i, down);
    lemma_neighbour_is_beside(rows, i, down);
    if 0 <= b < rows.len() {
        assert(list[b] == shown_in(t, in_list(rows)[b]));
    }
    match neighbour(all, all[i].is_pinned, all[i].sort_index, down) {
        Some(j) => {
            let ex = exchanged(all, i, j);
            lemma_exchanged(all, i, j);
            law_numbers_stay(ex);
            lemma_listing(once);
            assert forall|n: int| 0 <= n < list.len() implies #[trigger] once.listing()[n]
                == swapped(list, k, down)[n] by {
                let m = lemma_from_list(rows, n);
                assert(list[n] == shown_in(t, rows[m]));
                if m == i {
                    lemma_in_list(ex, j);
                } else if m == j {
                    lemma_in_list(ex, i);
                } else {
                    assert(ex[m] == all[m]);
                    lemma_in_list(ex, m);
                }
            }
            assert(once.listing() =~= swapped(list, k, down));
            law_moving_back_restores(rows, i, down);
        },
        None => {},
    }
}

/// Moving a conversation that is not there leaves the list as it is.
pub proof fn law_moving_nothing(t: Tables, id: Seq<char>, down: bool)
    requires
        is_arranged(t.conversations),
        forall|i: int| 0 <= i < t.conversations.len() ==> (#[trigger] t.conversations[i]).id != id,
    ensures
        (Tables { conversations: shifted(t.conversations, id, down), ..t }).listing()
            == t.listing(),
{
    let all = numbered(t.conversations);
    lemma_first_where(all, is_conversation(id));
    law_numbering_keeps_listing(t);
}

// ---------------------------------------------------------------------------
// Pinning
// ---------------------------------------------------------------------------

/// The smallest number of a group is that of one of its conversations, and none
/// has a smaller one.
proof fn lemma_lowest(rows: Seq<ConversationRow<Seq<char>>>, pinned: bool)
    ensures
        match lowest(rows, pinned) {
            Some(n) => {
                &&& forall|i: int|
                    0 <= i < rows.len() && (#[trigger] rows[i]).is_pinned == pinned ==> n
                        <= rows[i].sort_index
                &&& exists|i: int|
                    0 <= i < rows.len() && (#[trigger] rows[i]).is_pinned == pinned
                        && rows[i].sort_index == n
            },
            None => forall|i: int| 0 <= i < rows.len() ==> (#[trigger] rows[i]).is_pinned != pinned,
        },
    decreases rows.len(),
{
    if rows.len() > 0 {
        let front = rows.drop_last();
        lemma_lowest(front, pinned);
        assert forall|i: int| 0 <= i < front.len() implies front[i] == #[trigger] rows[i] by {}
        match lowest(front, pinned) {
            Some(n) => {
                let i = choose|i: int|
                    0 <= i < front.len() && (#[trigger] front[i]).is_pinned == pinned
                        && front[i].sort_index == n;
                assert(rows[i].is_pinned == pinned);
            },
            None => {},
        }
        assert(rows[rows.len() - 1] == rows.last());
    }
}

/// No conversation of a group has a larger number than the largest.
proof fn lemma_highest(rows: Seq<ConversationRow<Seq<char>>>, pinned: bool)
    ensures
        match highest(rows, pinned) {
            Some(n) => {
                &&& forall|i: int|
                    0 <= i < rows.len() && (#[trigger] rows[i]).is_pinned == pinned ==> n
                        >= rows[i].sort_index
                &&& exists|i: int|
                    0 <= i < rows.len() && (#[trigger] rows[i]).is_pinned == pinned
                        && rows[i].sort_index == n
            },
            None => forall|i: int| 0 <= i < rows.len() ==> (#[trigger] rows[i]).is_pinned != pinned,
        },
    decreases rows.len(),
{
    if rows.len() > 0 {
        let front = rows.drop_last();
        lemma_highest(front, pinned);
        assert forall|i: int| 0 <= i < front.len() implies front[i] == #[trigger] rows[i] by {}
        match highest(front, pinned) {
            Some(n) => {
                let i = choose|i: int|
                    0 <= i < front.len() && (#[trigger] front[i]).is_pinned == pinned
                        && front[i].sort_index == n;
                assert(rows[i].is_pinned == pinned);
            },
            None => {},
        }
        assert(rows[rows.len() - 1] == rows.last());
    }
}

/// `x` stands before `y` in the list.
pub open spec fn stands_before(
    list: Seq<Conversation<Seq<char>>>,
    x: Conversation<Seq<char>>,
    y: Conversation<Seq<char>>,
) -> bool {
    exists|a: int, b: int| 0 <= a < b < list.len() && #[trigger] list[a] == x && #[trigger] list[b] == y
}

/// The pinned conversations of a list come before the others.
pub open spec fn pinned_first(list: Seq<Conversation<Seq<char>>>) -> bool {
    forall|a: int, b: int|
        0 <= a < b < list.len() && (#[trigger] list[b]).is_pinned ==> (#[trigger] list[a]).is_pinned
}

/// In the list of arranged conversations the pinned ones come first.
pub proof fn law_pinned_come_first(t: Tables)
    requires
        is_arranged(t.conversations),
    ensures
        pinned_first(t.listing()),
{
    let rows = t.conversations;
    let list = t.listing();
    lemma_listing(t);
    law_numbering_arranges(rows);
    assert forall|a: int, b: int| 0 <= a < b < list.len() && (#[trigger] list[b]).is_pinned implies (
    #[trigger] list[a]).is_pinned by {
        let i = lemma_from_list(rows, a);
        let j = lemma_from_list(rows, b);
        assert(list[a] == shown_in(t, rows[i]) && list[b] == shown_in(t, rows[j]));
        if !rows[i].is_pinned {
            assert(numbered(rows)[j].is_pinned && !numbered(rows)[i].is_pinned);
        }
    }
}

/// Pinning a conversation, or unpinning it, leaves the pinned ones first and all
/// others in the order in which they stood. One that is unpinned goes to the end
/// of the list. One that is pinned goes to the front where there is a number
/// before those of the pinned ones, else behind the pinned ones.
#[verifier::rlimit(40)]
pub proof fn law_pinning_in_the_list(t: Tables, i: int, pinned: bool, now: Seq<char>)
    requires
        is_arranged(t.conversations),
        has_room(t.conversations),
        0 <= i < t.conversations.len(),
    ensures
        ({
            let id = t.conversations[i].id;
            let list = t.listing();
            let after = Tables {
                conversations: repinned(t.conversations, id, pinned, now),
                ..t
            };
            let place = after.conversations[i].sort_index - 1;
            &&& is_arranged(after.conversations)
            &&& after.listing().len() == list.len()
            &&& pinned_first(after.listing())
            &&& 0 <= place < list.len()
            &&& after.listing()[place] == (Conversation {
                is_pinned: pinned,
                updated_at: now,
                ..shown_in(t, t.conversations[i])
            })
            &&& forall|x: Conversation<Seq<char>>, y: Conversation<Seq<char>>|
                x.id != id && y.id != id && #[trigger] stands_before(list, x, y) ==> stands_before(
                    after.listing(),
                    x,
                    y,
                )
            &&& !pinned ==> place == list.len() - 1
            &&& pinned ==> match lowest(t.conversations, true) {
                Some(n) => if n > 1 {
                    place == 0
                } else {
                    forall|k: int|
                        place < k < list.len() ==> !(#[trigger] after.listing()[k]).is_pinned
                },
                None => place == 0,
            }
        }),
{
    let rows = t.conversations;
    let id = rows[i].id;
    let number = if pinned {
        above_all(rows, true)
    } else {
        below_all(rows, false)
    };
    let next = changed(rows, is_conversation(id), pinning(pinned, number, now));
    let all = numbered(next);
    let list = t.listing();
    let after = Tables { conversations: repinned(rows, id, pinned, now), ..t };
    assert(after.conversations == all);
    assert forall|m: int| 0 <= m < rows.len() implies #[trigger] next[m] == (if m == i {
        ConversationRow { is_pinned: pinned, sort_index: number, updated_at: now, ..rows[i] }
    } else {
        rows[m]
    }) by {
        if m < i {
            assert(conversation_key()(rows[m]) != conversation_key()(rows[i]));
        } else if i < m {
            assert(conversation_key()(rows[i]) != conversation_key()(rows[m]));
        }
    }
    assert forall|a: int, b: int| 0 <= a < b < next.len() implies conversation_key()(
        #[trigger] next[a],
    ) != conversation_key()(#[trigger] next[b]) by {
        assert(conversation_key()(rows[a]) != conversation_key()(rows[b]));
    }
    law_numbering_arranges(next);
    law_numbered(next);
    law_numbering_arranges(rows);
    law_numbered(rows);
    law_numbers_stay(all);
    law_pinned_come_first(after);
    lemma_listing(t);
    lemma_listing(after);
    lemma_in_list(all, i);
    let place = all[i].sort_index - 1;
    assert(after.listing()[place] == shown_in(after, all[i]));
    lemma_lowest(rows, true);
    lemma_highest(rows, false);
    assert forall|x: Conversation<Seq<char>>, y: Conversation<Seq<char>>|
        x.id != id && y.id != id && #[trigger] stands_before(list, x, y) implies stands_before(
        after.listing(),
        x,
        y,
    ) by {
        let (a, b) = choose|a: int, b: int|
            0 <= a < b < list.len() && #[trigger] list[a] == x && #[trigger] list[b] == y;
        let p = lemma_from_list(rows, a);
        let q = lemma_from_list(rows, b);
        assert(list[a] == shown_in(t, rows[p]) && list[b] == shown_in(t, rows[q]));
        assert(numbered(rows)[p].sort_index < numbered(rows)[q].sort_index);
        assert(comes_first(rows[p], rows[q]));
        lemma_in_list(all, p);
        lemma_in_list(all, q);
        lemma_not_both(rows, p, q);
        if all[q].sort_index < all[p].sort_index {
            assert(comes_first(next[q], next[p]));
        }
        if p < q {
            assert(all[p].sort_index != all[q].sort_index);
        } else {
            assert(all[q].sort_index != all[p].sort_index);
        }
        assert(after.listing()[all[p].sort_index - 1] == x);
        assert(after.listing()[all[q].sort_index - 1] == y);
    }
    assert forall|m: int| 0 <= m < rows.len() && m != i implies {
        &&& !pinned ==> (#[trigger] all[m]).sort_index < all[i].sort_index
        &&& pinned && number >= 1 ==> all[i].sort_index < all[m].sort_index
        &&& pinned && number < 1 && rows[m].is_pinned ==> all[m].sort_index < all[i].sort_index
    } by {
        if m < i {
            assert(all[m].sort_index != all[i].sort_index);
        } else {
            assert(all[i].sort_index != all[m].sort_index);
        }
        assert(next[m] == rows[m]);
        assert(1 <= rows[m].sort_index < i64::MAX);
        if all[i].sort_index < all[m].sort_index {
            assert(comes_first(next[i], next[m]));
        } else {
            assert(comes_first(next[m], next[i]));
        }
    }
    let first = lemma_from_list(all, 0);
    let last = lemma_from_list(all, all.len() - 1);
    assert(all[first].sort_index == 1 && all[last].sort_index == all.len());
    if !pinned {
        assert(last == i);
    } else if number >= 1 {
        assert(first == i);
    } else {
        assert forall|k: int| place < k < list.len() implies !(
        #[trigger] after.listing()[k]).is_pinned by {
            let m = lemma_from_list(all, k);
            assert(after.listing()[k] == shown_in(after, all[m]));
            assert(all[m].sort_index == k + 1);
        }
        if lowest(rows, true) is None && first != i {
            assert(!rows[first].is_pinned);
            assert(all[i].is_pinned && !all[first].is_pinned);
        }
    }
}

/// Of two arranged conversations only one comes first.
proof fn lemma_not_both(rows: Seq<ConversationRow<Seq<char>>>, p: int, q: int)
    requires
        is_arranged(rows),
        0 <= p < rows.len(),
        0 <= q < rows.len(),
        p != q,
    ensures
        !(comes_first(rows[p], rows[q]) && comes_first(rows[q], rows[p])),
{
    assert(1 <= rows[p].sort_index && 1 <= rows[q].sort_index);
    if p < q {
        assert(rows[p].sort_index != rows[q].sort_index);
    } else {
        assert(rows[q].sort_index != rows[p].sort_index);
    }
}

// ---------------------------------------------------------------------------
// Creating
// ---------------------------------------------------------------------------

/// A new conversation is listed behind the pinned ones, and all others keep
/// their order. It stands before the other ones that are not pinned where there
/// is a number before theirs, else behind them.
#[verifier::rlimit(40)]
pub proof fn law_creating_in_the_list(
    t: Tables,
    title: Option<Seq<char>>,
    id: Seq<char>,
    now: Seq<char>,
)
    requires
        is_arranged(t.conversations),
        has_room(t.conversations),
        !t.has_conversation(id),
        t.conversations.len() + 1 < i64::MAX,
    ensures
        match t.with_conversation(title, id, now) {
            Ok((u, c)) => {
                let n = t.conversations.len() as int;
                let place = u.conversations[n].sort_index - 1;
                &&& is_arranged(u.conversations)
                &&& u.listing().len() == n + 1
                &&& pinned_first(u.listing())
                &&& 0 <= place <= n
                &&& u.listing()[place].id == id
                &&& u.listing()[place].title == c.title
                &&& forall|i: int, j: int|
                    0 <= i < n && 0 <= j < n && numbered(t.conversations)[i].sort_index < numbered(
                        t.conversations,
                    )[j].sort_index ==> (#[trigger] u.conversations[i]).sort_index < (
                    #[trigger] u.conversations[j]).sort_index
                &&& match lowest(t.conversations, false) {
                    Some(k) => if k > 1 {
                        forall|i: int|
                            0 <= i < n && !(#[trigger] u.conversations[i]).is_pinned ==> place + 1
                                < u.conversations[i].sort_index
                    } else {
                        place == n
                    },
                    None => place == n,
                }
            },
            Err(_) => false,
        },
{
    let rows = t.conversations;
    let n = rows.len() as int;
    let number = above_all(rows, false);
    let c = new_conversation(id, first_title(title), now, number);
    let next = rows.push(c);
    let all = numbered(next);
    let u = Tables { conversations: all, ..t };
    lemma_first_where(rows, is_conversation(id));
    assert forall|i: int| 0 <= i < n implies #[trigger] next[i] == rows[i] by {}
    assert(next[n] == c);
    assert forall|a: int, b: int| 0 <= a < b < next.len() implies conversation_key()(
        #[trigger] next[a],
    ) != conversation_key()(#[trigger] next[b]) by {
        if b < n {
            assert(conversation_key()(rows[a]) != conversation_key()(rows[b]));
        } else {
            assert(!is_conversation(id)(rows[a]));
        }
    }
    law_numbering_arranges(next);
    law_numbered(next);
    law_numbering_arranges(rows);
    law_numbered(rows);
    law_numbers_stay(all);
    law_pinned_come_first(u);
    lemma_listing(u);
    lemma_in_list(all, n);
    lemma_lowest(rows, false);
    let place = all[n].sort_index - 1;
    assert(u.listing()[place] == shown_in(u, all[n]));
    assert forall|i: int, j: int|
        0 <= i < n && 0 <= j < n && numbered(rows)[i].sort_index < numbered(rows)[j].sort_index
            implies (#[trigger] all[i]).sort_index < (#[trigger] all[j]).sort_index by {
        assert(comes_first(rows[i], rows[j]));
        lemma_not_both(rows, i, j);
        if all[j].sort_index < all[i].sort_index {
            assert(comes_first(next[j], next[i]));
        }
        if i < j {
            assert(all[i].sort_index != all[j].sort_index);
        } else {
            assert(all[j].sort_index != all[i].sort_index);
        }
    }
    assert forall|m: int| 0 <= m < n implies {
        &&& number >= 1 && !rows[m].is_pinned ==> all[n].sort_index < (
        #[trigger] all[m]).sort_index
        &&& number < 1 ==> all[m].sort_index < all[n].sort_index
    } by {
        assert(all[m].sort_index != all[n].sort_index);
        assert(next[m] == rows[m]);
        assert(1 <= rows[m].sort_index < i64::MAX);
        if all[n].sort_index < all[m].sort_index {
            assert(comes_first(next[n], next[m]));
        } else {
            assert(comes_first(next[m], next[n]));
        }
    }
    let last = lemma_from_list(all, n);
    assert(all[last].sort_index == n + 1);
    if number < 1 {
        assert(last == n);
    }
}

} // verus!
