//! The order of conversations: pinned ones first, each group in the order that
//! the user gave it.
use vstd::prelude::*;
use crate::db::{is_conversation, Database, Tables};
use crate::models::ConversationRow;
use crate::sorting::{sorted, stable_sort, views};
use crate::stamps::{is_time_text, now_iso};
use crate::table::{change_rows, changed, find_row, first_where};
use crate::text::{le_text, lowercase, text_eq, text_le, trim, trimmed};

verus! {

/// Where a conversation wants to stand in its group; those without a place
/// come last.
pub open spec fn place(c: ConversationRow<Seq<char>>) -> int {
    if c.sort_index <= 0 {
        i64::MAX as int
    } else {
        c.sort_index as int
    }
}

/// Which of two conversations comes first when all get new numbers.
pub open spec fn comes_first(a: ConversationRow<Seq<char>>, b: ConversationRow<Seq<char>>) -> bool {
    if a.is_pinned != b.is_pinned {
        a.is_pinned
    } else if place(a) != place(b) {
        place(a) < place(b)
    } else if a.updated_at != b.updated_at {
        text_le(b.updated_at, a.updated_at)
    } else if a.created_at != b.created_at {
        text_le(b.created_at, a.created_at)
    } else {
        text_le(a.id, b.id)
    }
}

/// The order in which conversations get new numbers.
pub open spec fn new_order() -> spec_fn(
    ConversationRow<Seq<char>>,
    ConversationRow<Seq<char>>,
) -> bool {
    |a: ConversationRow<Seq<char>>, b: ConversationRow<Seq<char>>| comes_first(a, b)
}

/// The number of the conversation at a position.
pub open spec fn number_at(k: int) -> i64 {
    if k + 1 < i64::MAX {
        (k + 1) as i64
    } else {
        (i64::MAX - 1) as i64
    }
}

/// The position of the conversation `id` among all conversations in order.
pub open spec fn position(rows: Seq<ConversationRow<Seq<char>>>, id: Seq<char>) -> int {
    match first_where(
        sorted(
            rows,
            new_order(),
        ),
        is_conversation(id),
    ) {
        Some(k) => k,
        None => 0,
    }
}

/// The conversations numbered by their order.
pub open spec fn numbered(rows: Seq<ConversationRow<Seq<char>>>) -> Seq<
    ConversationRow<Seq<char>>,
> {
    Seq::new(
        rows.len(),
        |i: int|
            ConversationRow { sort_index: number_at(position(rows, rows[i].id)), ..rows[i] },
    )
}

/// The smallest number in a group of conversations.
pub open spec fn lowest(rows: Seq<ConversationRow<Seq<char>>>, pinned: bool) -> Option<i64>
    decreases rows.len(),
{
    if rows.len() == 0 {
        None
    } else {
        let before = lowest(rows.drop_last(), pinned);
        let c = rows.last();
        if c.is_pinned == pinned && (match before {
            Some(n) => c.sort_index < n,
            None => true,
        }) {
            Some(c.sort_index)
        } else {
            before
        }
    }
}

/// The largest number in a group of conversations.
pub open spec fn highest(rows: Seq<ConversationRow<Seq<char>>>, pinned: bool) -> Option<i64>
    decreases rows.len(),
{
    if rows.len() == 0 {
        None
    } else {
        let before = highest(rows.drop_last(), pinned);
        let c = rows.last();
        if c.is_pinned == pinned && (match before {
            Some(n) => c.sort_index > n,
            None => true,
        }) {
            Some(c.sort_index)
        } else {
            before
        }
    }
}

/// The number before all of a group.
pub open spec fn above_all(rows: Seq<ConversationRow<Seq<char>>>, pinned: bool) -> i64 {
    match lowest(rows, pinned) {
        Some(n) => (n - 1) as i64,
        None => 0,
    }
}

/// The number behind all of a group.
pub open spec fn below_all(rows: Seq<ConversationRow<Seq<char>>>, pinned: bool) -> i64 {
    match highest(rows, pinned) {
        Some(n) => (n + 1) as i64,
        None => 1,
    }
}

/// The numbers leave room before the first and behind the last.
pub open spec fn has_room(rows: Seq<ConversationRow<Seq<char>>>) -> bool {
    forall|i: int|
        0 <= i < rows.len() ==> i64::MIN < (#[trigger] rows[i]).sort_index < i64::MAX
}

/// The next conversation of a group behind (`down`) or before a number.
pub open spec fn neighbour(
    rows: Seq<ConversationRow<Seq<char>>>,
    pinned: bool,
    number: i64,
    down: bool,
) -> Option<int>
    decreases rows.len(),
{
    if rows.len() == 0 {
        None
    } else {
        let before = neighbour(rows.drop_last(), pinned, number, down);
        let c = rows.last();
        if c.is_pinned == pinned && (if down {
            c.sort_index > number
        } else {
            c.sort_index < number
        }) && (match before {
            Some(k) => if down {
                c.sort_index < rows[k].sort_index
            } else {
                c.sort_index > rows[k].sort_index
            },
            None => true,
        }) {
            Some(rows.len() - 1)
        } else {
            before
        }
    }
}

/// The conversations after two of them exchanged their numbers.
pub open spec fn exchanged(rows: Seq<ConversationRow<Seq<char>>>, i: int, j: int) -> Seq<
    ConversationRow<Seq<char>>,
> {
    rows.update(i, ConversationRow { sort_index: rows[j].sort_index, ..rows[i] }).update(
        j,
        ConversationRow { sort_index: rows[i].sort_index, ..rows[j] },
    )
}

/// The direction leads down; any other leads up.
pub open spec fn goes_down(direction: Seq<char>) -> bool {
    lowercase(trimmed(direction)) == "down"@
}

/// The conversations after one of them moved by one place within its group.
pub open spec fn shifted(
    rows: Seq<ConversationRow<Seq<char>>>,
    conversation_id: Seq<char>,
    down: bool,
) -> Seq<ConversationRow<Seq<char>>> {
    let all = numbered(rows);
    match first_where(all, is_conversation(conversation_id)) {
        None => all,
        Some(i) => match neighbour(all, all[i].is_pinned, all[i].sort_index, down) {
            None => all,
            Some(j) => numbered(exchanged(all, i, j)),
        },
    }
}

/// A conversation that is pinned or unpinned, and gets a number.
pub open spec fn pinning(pinned: bool, number: i64, now: Seq<char>) -> spec_fn(
    ConversationRow<Seq<char>>,
) -> ConversationRow<Seq<char>> {
    |c: ConversationRow<Seq<char>>|
        ConversationRow { is_pinned: pinned, sort_index: number, updated_at: now, ..c }
}

/// The conversations after one of them was pinned or unpinned.
pub open spec fn repinned(
    rows: Seq<ConversationRow<Seq<char>>>,
    conversation_id: Seq<char>,
    pinned: bool,
    now: Seq<char>,
) -> Seq<ConversationRow<Seq<char>>> {
    let number = if pinned {
        above_all(rows, true)
    } else {
        below_all(rows, false)
    };
    numbered(
        changed(rows, is_conversation(conversation_id), pinning(pinned, number, now)),
    )
}

/// Numbered conversations leave room before the first and behind the last.
pub proof fn law_numbered_has_room(rows: Seq<ConversationRow<Seq<char>>>)
    ensures
        has_room(numbered(rows)),
{
    assert forall|i: int| 0 <= i < numbered(rows).len() implies i64::MIN < (
    #[trigger] numbered(rows)[i]).sort_index < i64::MAX by {
        lemma_position(rows, rows[i].id);
    }
}

proof fn lemma_position(rows: Seq<ConversationRow<Seq<char>>>, id: Seq<char>)
    ensures
        0 <= position(rows, id),
{
    crate::table::lemma_first_where(
        sorted(
            rows,
            new_order(),
        ),
        is_conversation(id),
    );
}

/// Which of two conversations comes first when all get new numbers.
fn is_first(a: &ConversationRow, b: &ConversationRow) -> (r: bool)
    ensures
        r == comes_first(a@, b@),
{
    if a.is_pinned != b.is_pinned {
        return a.is_pinned;
    }
    let pa: i64 = if a.sort_index <= 0 {
        i64::MAX
    } else {
        a.sort_index
    };
    let pb: i64 = if b.sort_index <= 0 {
        i64::MAX
    } else {
        b.sort_index
    };
    if pa != pb {
        pa < pb
    } else if !text_eq(&a.updated_at, &b.updated_at) {
        le_text(&b.updated_at, &a.updated_at)
    } else if !text_eq(&a.created_at, &b.created_at) {
        le_text(&b.created_at, &a.created_at)
    } else {
        le_text(&a.id, &b.id)
    }
}

/// The numbers leave room before the first and behind the last.
pub fn leaves_room(rows: &Vec<ConversationRow>) -> (r: bool)
    ensures
        r == has_room(views(rows@)),
{
    for i in 0..rows.len()
        invariant
            forall|k: int|
                0 <= k < i ==> i64::MIN < (#[trigger] views(rows@)[k]).sort_index < i64::MAX,
    {
        let n: i64 = rows[i].sort_index;
        assert(views(rows@)[i as int].sort_index == n);
        if !(i64::MIN < n && n < i64::MAX) {
            return false;
        }
    }
    true
}

/// The number before all of a group.
pub fn number_above(rows: &Vec<ConversationRow>, pinned: bool) -> (r: i64)
    requires
        has_room(views(rows@)),
    ensures
        r == above_all(views(rows@), pinned),
{
    let ghost all = views(rows@);
    let mut least: Option<i64> = None;
    for i in 0..rows.len()
        invariant
            all == views(rows@),
            has_room(all),
            least == lowest(all.take(i as int), pinned),
            match least {
                Some(n) => i64::MIN < n,
                None => true,
            },
    {
        assert(all.take(i + 1).drop_last() =~= all.take(i as int));
        let c = &rows[i];
        assert(all[i as int] == c@);
        let better = match least {
            Some(n) => c.sort_index < n,
            None => true,
        };
        if c.is_pinned == pinned && better {
            least = Some(c.sort_index);
        }
    }
    assert(all.take(all.len() as int) =~= all);
    match least {
        Some(n) => n - 1,
        None => 0,
    }
}

/// The number behind all of a group.
pub fn number_below(rows: &Vec<ConversationRow>, pinned: bool) -> (r: i64)
    requires
        has_room(views(rows@)),
    ensures
        r == below_all(views(rows@), pinned),
{
    let ghost all = views(rows@);
    let mut most: Option<i64> = None;
    for i in 0..rows.len()
        invariant
            all == views(rows@),
            has_room(all),
            most == highest(all.take(i as int), pinned),
            match most {
                Some(n) => n < i64::MAX,
                None => true,
            },
    {
        assert(all.take(i + 1).drop_last() =~= all.take(i as int));
        let c = &rows[i];
        assert(all[i as int] == c@);
        let better = match most {
            Some(n) => c.sort_index > n,
            None => true,
        };
        if c.is_pinned == pinned && better {
            most = Some(c.sort_index);
        }
    }
    assert(all.take(all.len() as int) =~= all);
    match most {
        Some(n) => n + 1,
        None => 1,
    }
}

/// The next conversation of a group behind (`down`) or before a number.
fn find_neighbour(rows: &Vec<ConversationRow>, pinned: bool, number: i64, down: bool) -> (r: Option<
    usize,
>)
    ensures
        match r {
            Some(k) => k < rows.len() && neighbour(views(rows@), pinned, number, down) == Some(
                k as int,
            ),
            None => neighbour(views(rows@), pinned, number, down) is None,
        },
{
    let ghost all = views(rows@);
    let mut best: Option<usize> = None;
    for i in 0..rows.len()
        invariant
            all == views(rows@),
            match best {
                Some(k) => k < i && neighbour(all.take(i as int), pinned, number, down) == Some(
                    k as int,
                ),
                None => neighbour(all.take(i as int), pinned, number, down) is None,
            },
    {
        assert(all.take(i + 1).drop_last() =~= all.take(i as int));
        let c = &rows[i];
        assert(all[i as int] == c@);
        let beyond = if down {
            c.sort_index > number
        } else {
            c.sort_index < number
        };
        let nearer = match best {
            Some(k) => {
                assert(all.take(i + 1)[k as int] == rows@[k as int]@);
                if down {
                    c.sort_index < rows[k].sort_index
                } else {
                    c.sort_index > rows[k].sort_index
                }
            },
            None => true,
        };
        if c.is_pinned == pinned && beyond && nearer {
            best = Some(i);
        }
    }
    assert(all.take(all.len() as int) =~= all);
    best
}

/// Copies of all rows.
fn copy_rows(rows: &Vec<ConversationRow>) -> (r: Vec<ConversationRow>)
    ensures
        views(r@) == views(rows@),
{
    let mut out: Vec<ConversationRow> = Vec::new();
    for i in 0..rows.len()
        invariant
            views(out@) == views(rows@).take(i as int),
    {
        let c = rows[i].clone();
        let ghost next = views(out@).push(c@);
        out.push(c);
        assert(views(out@) =~= next);
        assert(views(rows@).take(i + 1) =~= next);
    }
    assert(views(rows@).take(rows@.len() as int) =~= views(rows@));
    out
}

/// Numbers the conversations by their order.
pub fn number_rows(rows: &mut Vec<ConversationRow>)
    ensures
        views(final(rows)@) == numbered(views(old(rows)@)),
{
    let ghost all = views(rows@);
    let order = stable_sort(
        copy_rows(rows),
        |a: &ConversationRow, b: &ConversationRow| -> (r: bool)
            ensures
                r == comes_first(a@, b@)
            { is_first(a, b) },
        Ghost(new_order()),
    );
    change_rows(
        rows,
        |c: &ConversationRow| -> (r: bool)
            ensures
                r == true
            { true },
        |c: &ConversationRow| -> (r: ConversationRow)
            ensures
                r@ == (ConversationRow { sort_index: number_at(position(all, c@.id)), ..c@ })
            {
                let at = find_row(
                    &order,
                    |d: &ConversationRow| -> (r: bool)
                        ensures
                            r == (d@.id == c@.id)
                        { text_eq(&d.id, &c.id) },
                    Ghost(is_conversation(c@.id)),
                );
                let k: usize = match at {
                    Some(i) => i,
                    None => 0,
                };
                assert(k == position(all, c@.id));
                let mut d = c.clone();
                d.sort_index = if (k as u64) < 0x7fff_ffff_ffff_fffe {
                    k as i64 + 1
                } else {
                    i64::MAX - 1
                };
                d
            },
        Ghost(|c: ConversationRow<Seq<char>>| true),
        Ghost(
            |c: ConversationRow<Seq<char>>|
                ConversationRow { sort_index: number_at(position(all, c.id)), ..c },
        ),
    );
    assert(views(rows@) =~= numbered(all));
}

impl Database {
    /// Numbers the conversations by their order.
    pub fn normalize_conversation_sort_order(&mut self)
        ensures
            final(self)@ == (Tables {
                conversations: numbered(old(self)@.conversations),
                ..old(self)@
            }),
    {
        number_rows(&mut self.conversations);
    }

    /// Pins a conversation, or unpins it, at `now`.
    pub fn set_conversation_pinned_at(&mut self, conversation_id: &str, pinned: bool, now: &str)
        requires
            has_room(old(self)@.conversations),
        ensures
            final(self)@ == (Tables {
                conversations: repinned(
                    old(self)@.conversations,
                    conversation_id@,
                    pinned,
                    now@,
                ),
                ..old(self)@
            }),
    {
        let number: i64 = if pinned {
            number_above(&self.conversations, true)
        } else {
            number_below(&self.conversations, false)
        };
        change_rows(
            &mut self.conversations,
            |c: &ConversationRow| -> (r: bool)
                ensures
                    r == (c@.id == conversation_id@)
                { text_eq(&c.id, conversation_id) },
            |c: &ConversationRow| -> (r: ConversationRow)
                ensures
                    r@ == (ConversationRow {
                        is_pinned: pinned,
                        sort_index: number,
                        updated_at: now@,
                        ..c@
                    })
                {
                    let mut d = c.clone();
                    d.is_pinned = pinned;
                    d.sort_index = number;
                    d.updated_at = now.to_owned();
                    d
                },
            Ghost(is_conversation(conversation_id@)),
            Ghost(pinning(pinned, number, now@)),
        );
        self.normalize_conversation_sort_order();
    }

    /// Pins a conversation, or unpins it.
    pub fn set_conversation_pinned(&mut self, conversation_id: &str, pinned: bool)
        requires
            has_room(old(self)@.conversations),
        ensures
            exists|now: Seq<char>|
                is_time_text(now) && final(self)@ == (Tables {
                    conversations: #[trigger] repinned(
                        old(self)@.conversations,
                        conversation_id@,
                        pinned,
                        now,
                    ),
                    ..old(self)@
                }),
    {
        let now = now_iso();
        self.set_conversation_pinned_at(conversation_id, pinned, &now)
    }

    /// Moves a conversation by one place within its group.
    pub fn shift_conversation(&mut self, conversation_id: &str, down: bool)
        ensures
            final(self)@ == (Tables {
                conversations: shifted(old(self)@.conversations, conversation_id@, down),
                ..old(self)@
            }),
    {
        self.normalize_conversation_sort_order();
        let ghost all = self@.conversations;
        let at = find_row(
            &self.conversations,
            |c: &ConversationRow| -> (r: bool)
                ensures
                    r == (c@.id == conversation_id@)
                { text_eq(&c.id, conversation_id) },
            Ghost(is_conversation(conversation_id@)),
        );
        let i = match at {
            Some(i) => i,
            None => {
                return;
            },
        };
        assert(all[i as int] == self.conversations@[i as int]@);
        let number: i64 = self.conversations[i].sort_index;
        let pinned = self.conversations[i].is_pinned;
        let j = match find_neighbour(&self.conversations, pinned, number, down) {
            Some(j) => j,
            None => {
                return;
            },
        };
        assert(all[j as int] == self.conversations@[j as int]@);
        let mut a = self.conversations[i].clone();
        let mut b = self.conversations[j].clone();
        a.sort_index = b.sort_index;
        b.sort_index = number;
        let ghost next = all.update(i as int, a@).update(j as int, b@);
        self.conversations.set(i, a);
        self.conversations.set(j, b);
        assert(views(self.conversations@) =~= next);
        assert(next =~= exchanged(all, i as int, j as int));
        self.normalize_conversation_sort_order();
    }

    /// Moves a conversation down where the direction says so, else up.
    pub fn move_conversation(&mut self, conversation_id: &str, direction: &str)
        ensures
            final(self)@ == (Tables {
                conversations: shifted(
                    old(self)@.conversations,
                    conversation_id@,
                    goes_down(direction@),
                ),
                ..old(self)@
            }),
    {
        let direction = trim(direction).to_lowercase();
        self.shift_conversation(conversation_id, text_eq(&direction, "down"))
    }
}

} // verus!
