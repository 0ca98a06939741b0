//! What every operation keeps: no two rows have the same key, what belongs to a
//! conversation belongs to one that exists, and importance stays in its range.
use vstd::prelude::*;
use crate::db::attachments::{deleted_file, is_file, is_kept_file};
use crate::db::conversations::{first_title, new_conversation};
use crate::db::chat_settings::has_key;
use crate::db::memories::{alike, merged_row, new_row, note_of, says_same, Note};
use crate::db::messages::is_not_after;
use crate::db::ordering::{
    above_all, exchanged, neighbour, numbered, repinned, shifted,
};
use crate::db::summaries::{is_segment, is_summary};
use crate::db::upkeep::{
    all_faded, faded, is_twin, target_conversation, target_scope, united,
};
use crate::memory::{matchable, merged_content};
use crate::db::{
    file_elsewhere, is_conversation, is_memory, is_message, is_other_conversation,
    is_other_memory, is_other_message, message_elsewhere, summary_elsewhere, DbError, Tables,
};
use crate::models::{
    ChatOverrides, ConversationFile, ConversationRow, MemoryRow, Message, Setting, StyleProfile,
    SummaryRow, UserProfile,
};
use crate::table::{changed, first_where, lemma_first_where};

verus! {

// ---------------------------------------------------------------------------
// Rows with different keys
// ---------------------------------------------------------------------------

/// No two rows have the same key.
pub open spec fn distinct<A, K>(s: Seq<A>, key: spec_fn(A) -> K) -> bool {
    forall|i: int, j: int| 0 <= i < j < s.len() ==> key(#[trigger] s[i]) != key(#[trigger] s[j])
}

proof fn lemma_distinct_push<A, K>(s: Seq<A>, x: A, key: spec_fn(A) -> K)
    requires
        distinct(s, key),
        forall|i: int| 0 <= i < s.len() ==> key(#[trigger] s[i]) != key(x),
    ensures
        distinct(s.push(x), key),
{
    let t = s.push(x);
    assert forall|i: int, j: int| 0 <= i < j < t.len() implies key(#[trigger] t[i]) != key(
        #[trigger] t[j],
    ) by {
        assert(t[i] == s[i]);
        if j < s.len() {
            assert(t[j] == s[j]);
        }
    }
}

/// What is left of rows was one of them.
pub proof fn lemma_filter_member<A>(s: Seq<A>, p: spec_fn(A) -> bool, i: int) -> (j: int)
    requires
        0 <= i < s.filter(p).len(),
    ensures
        0 <= j < s.len(),
        s[j] == s.filter(p)[i],
        p(s[j]),
    decreases s.len(),
{
    reveal(Seq::filter);
    let before = s.drop_last().filter(p);
    if i < before.len() {
        lemma_filter_member(s.drop_last(), p, i)
    } else {
        s.len() - 1
    }
}

/// All elements for which `p` holds are all of them where it holds of each.
pub proof fn lemma_filter_all<A>(s: Seq<A>, p: spec_fn(A) -> bool)
    requires
        forall|i: int| 0 <= i < s.len() ==> p(#[trigger] s[i]),
    ensures
        s.filter(p) == s,
    decreases s.len(),
{
    reveal(Seq::filter);
    if s.len() > 0 {
        let front = s.drop_last();
        assert forall|i: int| 0 <= i < front.len() implies p(#[trigger] front[i]) by {
            assert(front[i] == s[i]);
        }
        lemma_filter_all(front, p);
        assert(p(s[s.len() - 1]));
        assert(front.push(s.last()) =~= s);
    } else {
        assert(s.filter(p) =~= s);
    }
}

/// What is picked of rows is left of them.
pub proof fn lemma_filter_keeps<A>(s: Seq<A>, p: spec_fn(A) -> bool, j: int) -> (i: int)
    requires
        0 <= j < s.len(),
        p(s[j]),
    ensures
        0 <= i < s.filter(p).len(),
        s.filter(p)[i] == s[j],
    decreases s.len(),
{
    reveal(Seq::filter);
    if j < s.len() - 1 {
        lemma_filter_keeps(s.drop_last(), p, j)
    } else {
        s.filter(p).len() - 1
    }
}

proof fn lemma_distinct_filter<A, K>(s: Seq<A>, key: spec_fn(A) -> K, p: spec_fn(A) -> bool)
    requires
        distinct(s, key),
    ensures
        distinct(s.filter(p), key),
    decreases s.len(),
{
    reveal(Seq::filter);
    if s.len() > 0 {
        let front = s.drop_last();
        assert forall|i: int, j: int| 0 <= i < j < front.len() implies key(#[trigger] front[i])
            != key(#[trigger] front[j]) by {
            assert(front[i] == s[i] && front[j] == s[j]);
        }
        lemma_distinct_filter(front, key, p);
        let kept = front.filter(p);
        if p(s.last()) {
            assert forall|i: int| 0 <= i < kept.len() implies key(#[trigger] kept[i]) != key(
                s.last(),
            ) by {
                let j = lemma_filter_member(front, p, i);
                assert(kept[i] == s[j]);
                assert(key(s[j]) != key(s[s.len() - 1]));
            }
            lemma_distinct_push(kept, s.last(), key);
        }
    }
}

proof fn lemma_distinct_same<A, K>(s: Seq<A>, t: Seq<A>, key: spec_fn(A) -> K)
    requires
        distinct(s, key),
        s.len() == t.len(),
        forall|i: int| 0 <= i < s.len() ==> key(#[trigger] t[i]) == key(s[i]),
    ensures
        distinct(t, key),
{
    assert forall|i: int, j: int| 0 <= i < j < t.len() implies key(#[trigger] t[i]) != key(
        #[trigger] t[j],
    ) by {
        assert(key(s[i]) != key(s[j]));
    }
}

// ---------------------------------------------------------------------------
// Soundness
// ---------------------------------------------------------------------------

/// The key of a setting.
pub open spec fn setting_key() -> spec_fn(Setting<Seq<char>>) -> Seq<char> {
    |s: Setting<Seq<char>>| s.key
}

/// The key of a conversation.
pub open spec fn conversation_key() -> spec_fn(ConversationRow<Seq<char>>) -> Seq<char> {
    |c: ConversationRow<Seq<char>>| c.id
}

/// The key of a message.
pub open spec fn message_key() -> spec_fn(Message<Seq<char>>) -> Seq<char> {
    |m: Message<Seq<char>>| m.id
}

/// The key of a memory.
pub open spec fn memory_key() -> spec_fn(MemoryRow<Seq<char>>) -> Seq<char> {
    |m: MemoryRow<Seq<char>>| m.id
}

/// The key of a summary.
pub open spec fn summary_key() -> spec_fn(SummaryRow<Seq<char>>) -> Seq<char> {
    |s: SummaryRow<Seq<char>>| s.id
}

/// The place of a summary.
pub open spec fn segment_key() -> spec_fn(SummaryRow<Seq<char>>) -> (Seq<char>, i64) {
    |s: SummaryRow<Seq<char>>| (s.conversation_id, s.segment_index)
}

/// The key of an attachment.
pub open spec fn file_key() -> spec_fn(ConversationFile<Seq<char>>) -> Seq<char> {
    |f: ConversationFile<Seq<char>>| f.id
}

impl Tables {
    /// No two rows of a table have the same key.
    pub open spec fn keys_differ(self) -> bool {
        &&& distinct(self.settings, setting_key())
        &&& distinct(self.conversations, conversation_key())
        &&& distinct(self.messages, message_key())
        &&& distinct(self.memories, memory_key())
        &&& distinct(self.summaries, summary_key())
        &&& distinct(self.summaries, segment_key())
        &&& distinct(self.files, file_key())
    }

    /// Messages, summaries and attachments belong to conversations that exist.
    pub open spec fn all_belong(self) -> bool {
        &&& forall|i: int|
            0 <= i < self.messages.len() ==> self.has_conversation(
                (#[trigger] self.messages[i]).conversation_id,
            )
        &&& forall|i: int|
            0 <= i < self.summaries.len() ==> self.has_conversation(
                (#[trigger] self.summaries[i]).conversation_id,
            )
        &&& forall|i: int|
            0 <= i < self.files.len() ==> self.has_conversation(
                (#[trigger] self.files[i]).conversation_id,
            )
    }

    /// The importance of every memory is between one and ten.
    pub open spec fn weights_in_range(self) -> bool {
        forall|i: int| 0 <= i < self.memories.len() ==> 1 <= (#[trigger] self.memories[i]).importance <= 10
    }

    /// What every operation keeps.
    pub open spec fn sound(self) -> bool {
        self.keys_differ() && self.all_belong() && self.weights_in_range()
    }
}

/// A database without rows is sound.
pub proof fn law_empty_is_sound()
    ensures
        Tables::empty().sound(),
{
}

/// A conversation exists if and only if one of the rows has its identifier.
pub proof fn lemma_has_conversation(t: Tables, id: Seq<char>)
    ensures
        t.has_conversation(id) <==> exists|i: int|
            0 <= i < t.conversations.len() && (#[trigger] t.conversations[i]).id == id,
{
    lemma_first_where(t.conversations, is_conversation(id));
    match first_where(t.conversations, is_conversation(id)) {
        Some(i) => {
            assert(t.conversations[i].id == id);
        },
        None => {
            assert forall|i: int| 0 <= i < t.conversations.len() implies (
            #[trigger] t.conversations[i]).id != id by {
                assert(!is_conversation(id)(t.conversations[i]));
            }
        },
    }
}

/// The conversations have the same identifiers in the same order.
pub open spec fn same_ids(
    a: Seq<ConversationRow<Seq<char>>>,
    b: Seq<ConversationRow<Seq<char>>>,
) -> bool {
    a.len() == b.len() && forall|i: int| 0 <= i < a.len() ==> (#[trigger] a[i]).id == b[i].id
}

/// Soundness does not depend on more of the conversations than their
/// identifiers.
pub proof fn lemma_same_ids(t: Tables, u: Tables)
    requires
        t.sound(),
        u == (Tables { conversations: u.conversations, ..t }),
        same_ids(u.conversations, t.conversations),
    ensures
        u.sound(),
        forall|id: Seq<char>| #[trigger] u.has_conversation(id) == t.has_conversation(id),
{
    lemma_distinct_same(t.conversations, u.conversations, conversation_key());
    assert forall|id: Seq<char>| #[trigger] u.has_conversation(id) == t.has_conversation(id) by {
        lemma_has_conversation(t, id);
        lemma_has_conversation(u, id);
        if t.has_conversation(id) {
            let i = choose|i: int|
                0 <= i < t.conversations.len() && (#[trigger] t.conversations[i]).id == id;
            assert(u.conversations[i].id == id);
        }
        if u.has_conversation(id) {
            let i = choose|i: int|
                0 <= i < u.conversations.len() && (#[trigger] u.conversations[i]).id == id;
            assert(t.conversations[i].id == id);
        }
    }
}

// ---------------------------------------------------------------------------
// Conversations
// ---------------------------------------------------------------------------

/// Marking a conversation as changed keeps soundness.
pub proof fn law_sound_touched(t: Tables, id: Seq<char>, now: Seq<char>)
    requires
        t.sound(),
    ensures
        t.touched(id, now).sound(),
        forall|k: Seq<char>| #[trigger] t.touched(id, now).has_conversation(k) == t.has_conversation(k),
{
    lemma_same_ids(t, t.touched(id, now));
}

/// Titles and settings of conversations keep soundness.
pub proof fn law_sound_conversation_settings(
    t: Tables,
    id: Seq<char>,
    text: Seq<char>,
    o: ChatOverrides<Seq<char>>,
    now: Seq<char>,
)
    requires
        t.sound(),
    ensures
        t.titled(id, text, now).sound(),
        t.auto_titled(id, text, now).sound(),
        t.remodelled(id, text, now).sound(),
        t.overridden(id, o, now).sound(),
{
    lemma_same_ids(t, t.titled(id, text, now));
    lemma_same_ids(t, t.remodelled(id, text, now));
    lemma_same_ids(t, t.overridden(id, o, now));
}

/// Numbering, pinning and moving conversations keep soundness.
pub proof fn law_sound_order(t: Tables, id: Seq<char>, pinned: bool, down: bool, now: Seq<char>)
    requires
        t.sound(),
    ensures
        (Tables { conversations: numbered(t.conversations), ..t }).sound(),
        (Tables { conversations: repinned(t.conversations, id, pinned, now), ..t }).sound(),
        (Tables { conversations: shifted(t.conversations, id, down), ..t }).sound(),
{
    let rows = t.conversations;
    lemma_same_ids(t, Tables { conversations: numbered(rows), ..t });
    lemma_same_ids(t, Tables { conversations: repinned(rows, id, pinned, now), ..t });
    let all = numbered(rows);
    match first_where(all, is_conversation(id)) {
        None => {},
        Some(i) => {
            lemma_first_where(all, is_conversation(id));
            match neighbour(all, all[i].is_pinned, all[i].sort_index, down) {
                None => {},
                Some(j) => {
                    lemma_neighbour(all, all[i].is_pinned, all[i].sort_index, down);
                    let ex = exchanged(all, i, j);
                    assert(same_ids(ex, all)) by {
                        assert forall|k: int| 0 <= k < ex.len() implies (#[trigger] ex[k]).id
                            == all[k].id by {}
                    }
                },
            }
        },
    }
    lemma_same_ids(t, Tables { conversations: shifted(rows, id, down), ..t });
}

/// The neighbour is one of the conversations.
proof fn lemma_neighbour(
    rows: Seq<ConversationRow<Seq<char>>>,
    pinned: bool,
    number: i64,
    down: bool,
)
    ensures
        match neighbour(rows, pinned, number, down) {
            Some(k) => 0 <= k < rows.len(),
            None => true,
        },
    decreases rows.len(),
{
    if rows.len() > 0 {
        lemma_neighbour(rows.drop_last(), pinned, number, down);
    }
}

/// Creating a conversation keeps soundness.
pub proof fn law_sound_with_conversation(
    t: Tables,
    title: Option<Seq<char>>,
    id: Seq<char>,
    now: Seq<char>,
)
    requires
        t.sound(),
    ensures
        match t.with_conversation(title, id, now) {
            Ok((u, c)) => u.sound() && u.has_conversation(id),
            Err(_) => t.has_conversation(id),
        },
{
    if !t.has_conversation(id) {
        let c = new_conversation(id, first_title(title), now, above_all(t.conversations, false));
        let rows = t.conversations.push(c);
        let pushed = Tables { conversations: rows, ..t };
        lemma_has_conversation(t, id);
        assert forall|i: int| 0 <= i < t.conversations.len() implies conversation_key()(
            #[trigger] t.conversations[i],
        ) != conversation_key()(c) by {}
        lemma_distinct_push(t.conversations, c, conversation_key());
        assert forall|k: Seq<char>| t.has_conversation(k) implies #[trigger] pushed.has_conversation(
            k,
        ) by {
            lemma_has_conversation(t, k);
            lemma_has_conversation(pushed, k);
            let i = choose|i: int|
                0 <= i < t.conversations.len() && (#[trigger] t.conversations[i]).id == k;
            assert(rows[i].id == k);
        }
        assert(pushed.all_belong());
        let u = Tables { conversations: numbered(rows), ..t };
        lemma_same_ids(pushed, u);
        lemma_has_conversation(pushed, id);
        assert(rows[t.conversations.len() as int].id == id);
    }
}

/// Deleting a conversation keeps soundness, and all memories.
pub proof fn law_sound_without_conversation(t: Tables, id: Seq<char>)
    requires
        t.sound(),
    ensures
        t.without_conversation(id).sound(),
        t.without_conversation(id).memories == t.memories,
        !t.without_conversation(id).has_conversation(id),
        forall|k: Seq<char>|
            k != id ==> #[trigger] t.without_conversation(id).has_conversation(k)
                == t.has_conversation(k),
{
    let u = t.without_conversation(id);
    if t.has_conversation(id) {
        let pc = is_other_conversation(id);
        let pm = message_elsewhere(id);
        let ps = summary_elsewhere(id);
        let pf = file_elsewhere(id);
        lemma_distinct_filter(t.conversations, conversation_key(), pc);
        lemma_distinct_filter(t.messages, message_key(), pm);
        lemma_distinct_filter(t.summaries, summary_key(), ps);
        lemma_distinct_filter(t.summaries, segment_key(), ps);
        lemma_distinct_filter(t.files, file_key(), pf);
        assert forall|k: Seq<char>| k != id implies #[trigger] u.has_conversation(k)
            == t.has_conversation(k) by {
            lemma_has_conversation(t, k);
            lemma_has_conversation(u, k);
            if t.has_conversation(k) {
                let j = choose|j: int|
                    0 <= j < t.conversations.len() && (#[trigger] t.conversations[j]).id == k;
                let i = lemma_filter_keeps(t.conversations, pc, j);
                assert(u.conversations[i].id == k);
            }
            if u.has_conversation(k) {
                let i = choose|i: int|
                    0 <= i < u.conversations.len() && (#[trigger] u.conversations[i]).id == k;
                let j = lemma_filter_member(t.conversations, pc, i);
                assert(t.conversations[j].id == k);
            }
        }
        lemma_has_conversation(u, id);
        if u.has_conversation(id) {
            let i = choose|i: int|
                0 <= i < u.conversations.len() && (#[trigger] u.conversations[i]).id == id;
            let j = lemma_filter_member(t.conversations, pc, i);
        }
        assert forall|i: int| 0 <= i < u.messages.len() implies u.has_conversation(
            (#[trigger] u.messages[i]).conversation_id,
        ) by {
            let j = lemma_filter_member(t.messages, pm, i);
            assert(t.has_conversation(t.messages[j].conversation_id));
        }
        assert forall|i: int| 0 <= i < u.summaries.len() implies u.has_conversation(
            (#[trigger] u.summaries[i]).conversation_id,
        ) by {
            let j = lemma_filter_member(t.summaries, ps, i);
            assert(t.has_conversation(t.summaries[j].conversation_id));
        }
        assert forall|i: int| 0 <= i < u.files.len() implies u.has_conversation(
            (#[trigger] u.files[i]).conversation_id,
        ) by {
            let j = lemma_filter_member(t.files, pf, i);
            assert(t.has_conversation(t.files[j].conversation_id));
        }
    }
}

// ---------------------------------------------------------------------------
// Messages, summaries and attachments
// ---------------------------------------------------------------------------

/// Adding a message keeps soundness.
pub proof fn law_sound_with_message(t: Tables, m: Message<Seq<char>>, touched_at: Seq<char>)
    requires
        t.sound(),
    ensures
        match t.with_message(m, touched_at) {
            Ok(u) => u.sound(),
            Err(_) => true,
        },
{
    if t.any_message(m.id) is None && t.has_conversation(m.conversation_id) {
        lemma_first_where(t.messages, is_message(m.id));
        assert forall|i: int| 0 <= i < t.messages.len() implies message_key()(
            #[trigger] t.messages[i],
        ) != message_key()(m) by {
            assert(!is_message(m.id)(t.messages[i]));
        }
        lemma_distinct_push(t.messages, m, message_key());
        let u = Tables { messages: t.messages.push(m), ..t };
        assert(u.all_belong()) by {
            assert forall|id: Seq<char>| t.has_conversation(id) implies #[trigger] u.has_conversation(
                id,
            ) by {}
            assert forall|i: int| 0 <= i < u.messages.len() implies u.has_conversation(
                (#[trigger] u.messages[i]).conversation_id,
            ) by {
                if i < t.messages.len() {
                    assert(t.has_conversation(t.messages[i].conversation_id));
                }
            }
            assert forall|i: int| 0 <= i < u.summaries.len() implies u.has_conversation(
                (#[trigger] u.summaries[i]).conversation_id,
            ) by {
                assert(t.has_conversation(t.summaries[i].conversation_id));
            }
            assert forall|i: int| 0 <= i < u.files.len() implies u.has_conversation(
                (#[trigger] u.files[i]).conversation_id,
            ) by {
                assert(t.has_conversation(t.files[i].conversation_id));
            }
        }
        law_sound_touched(u, m.conversation_id, touched_at);
    }
}

/// What is stored with other messages and fewer summaries is sound where the
/// messages are rows of before, perhaps with another content.
proof fn lemma_sound_messages(t: Tables, u: Tables)
    requires
        t.sound(),
        u == (Tables { messages: u.messages, summaries: u.summaries, ..t }),
        distinct(u.messages, message_key()),
        distinct(u.summaries, summary_key()),
        distinct(u.summaries, segment_key()),
        forall|i: int|
            0 <= i < u.messages.len() ==> t.has_conversation(
                (#[trigger] u.messages[i]).conversation_id,
            ),
        forall|i: int|
            0 <= i < u.summaries.len() ==> t.has_conversation(
                (#[trigger] u.summaries[i]).conversation_id,
            ),
    ensures
        u.sound(),
{
    assert forall|id: Seq<char>| #[trigger] u.has_conversation(id) == t.has_conversation(id) by {}
    assert forall|i: int| 0 <= i < u.files.len() implies u.has_conversation(
        (#[trigger] u.files[i]).conversation_id,
    ) by {
        assert(t.has_conversation(t.files[i].conversation_id));
    }
}

/// Rewriting a message keeps soundness.
pub proof fn law_sound_with_content(
    t: Tables,
    message_id: Seq<char>,
    content: Seq<char>,
    now: Seq<char>,
)
    requires
        t.sound(),
    ensures
        t.with_content(message_id, content, now).sound(),
{
    let u = t.with_content(message_id, content, now);
    lemma_distinct_same(t.messages, u.messages, message_key());
    assert forall|i: int| 0 <= i < u.messages.len() implies t.has_conversation(
        (#[trigger] u.messages[i]).conversation_id,
    ) by {
        assert(t.has_conversation(t.messages[i].conversation_id));
    }
    lemma_sound_messages(t, u);
}

/// What is stored without the summaries of a conversation is sound.
proof fn lemma_sound_without_summaries(t: Tables, id: Seq<char>)
    requires
        t.sound(),
    ensures
        t.without_summaries(id).sound(),
{
    let u = t.without_summaries(id);
    let p = summary_elsewhere(id);
    lemma_distinct_filter(t.summaries, summary_key(), p);
    lemma_distinct_filter(t.summaries, segment_key(), p);
    assert forall|i: int| 0 <= i < u.summaries.len() implies t.has_conversation(
        (#[trigger] u.summaries[i]).conversation_id,
    ) by {
        let j = lemma_filter_member(t.summaries, p, i);
        assert(t.has_conversation(t.summaries[j].conversation_id));
    }
    lemma_sound_messages(t, u);
}

/// What is stored with some of the messages is sound.
proof fn lemma_sound_fewer_messages(t: Tables, p: spec_fn(Message<Seq<char>>) -> bool)
    requires
        t.sound(),
    ensures
        (Tables { messages: t.messages.filter(p), ..t }).sound(),
{
    let u = Tables { messages: t.messages.filter(p), ..t };
    lemma_distinct_filter(t.messages, message_key(), p);
    assert forall|i: int| 0 <= i < u.messages.len() implies t.has_conversation(
        (#[trigger] u.messages[i]).conversation_id,
    ) by {
        let j = lemma_filter_member(t.messages, p, i);
        assert(t.has_conversation(t.messages[j].conversation_id));
    }
    lemma_sound_messages(t, u);
}

/// Deleting a message keeps soundness.
pub proof fn law_sound_message_deleted(
    t: Tables,
    message_id: Seq<char>,
    soft: bool,
    reason: Seq<char>,
    now: Seq<char>,
    touched_at: Seq<char>,
)
    requires
        t.sound(),
    ensures
        t.message_deleted(message_id, soft, reason, now, touched_at).0.sound(),
{
    match t.any_message(message_id) {
        None => {},
        Some(m) => {
            let u = t.without_message(message_id, soft, reason, now);
            if soft {
                lemma_distinct_same(t.messages, u.messages, message_key());
                assert forall|i: int| 0 <= i < u.messages.len() implies t.has_conversation(
        (#[trigger] u.messages[i]).conversation_id,
    ) by {
                    assert(t.has_conversation(t.messages[i].conversation_id));
                }
                lemma_sound_messages(t, u);
            } else {
                lemma_sound_fewer_messages(t, is_other_message(message_id));
            }
            lemma_sound_without_summaries(u, m.conversation_id);
            law_sound_touched(
                u.without_summaries(m.conversation_id),
                m.conversation_id,
                touched_at,
            );
        },
    }
}

/// Removing the messages behind one keeps soundness.
pub proof fn law_sound_truncated_after(t: Tables, message_id: Seq<char>, touched_at: Seq<char>)
    requires
        t.sound(),
    ensures
        t.truncated_after(message_id, touched_at).0.sound(),
{
    match t.message(message_id) {
        None => {},
        Some(m) => {
            let u = t.cut_after(m.conversation_id, m.created_at);
            let p = is_not_after(m.conversation_id, m.created_at);
            lemma_sound_fewer_messages(t, p);
            lemma_sound_without_summaries(u, m.conversation_id);
            law_sound_touched(
                u.without_summaries(m.conversation_id),
                m.conversation_id,
                touched_at,
            );
        },
    }
}

/// Adding a summary keeps soundness.
pub proof fn law_sound_with_summary(t: Tables, s: SummaryRow<Seq<char>>)
    requires
        t.sound(),
    ensures
        match t.with_summary(s) {
            Ok(u) => u.sound(),
            Err(_) => true,
        },
{
    let same_id = is_summary(s.id);
    let same_place = is_segment(s.conversation_id, s.segment_index);
    lemma_first_where(t.summaries, same_id);
    lemma_first_where(t.summaries, same_place);
    match t.with_summary(s) {
        Ok(u) => {
            assert(first_where(t.summaries, same_id) is None);
            assert(first_where(t.summaries, same_place) is None);
            assert forall|i: int| 0 <= i < t.summaries.len() implies summary_key()(
                #[trigger] t.summaries[i],
            ) != summary_key()(s) by {
                assert(!same_id(t.summaries[i]));
            }
            assert forall|i: int| 0 <= i < t.summaries.len() implies segment_key()(
                #[trigger] t.summaries[i],
            ) != segment_key()(s) by {
                assert(!same_place(t.summaries[i]));
            }
            lemma_distinct_push(t.summaries, s, summary_key());
            lemma_distinct_push(t.summaries, s, segment_key());
            assert forall|id: Seq<char>| #[trigger] u.has_conversation(id) == t.has_conversation(
                id,
            ) by {}
            assert forall|i: int| 0 <= i < u.summaries.len() implies u.has_conversation(
                (#[trigger] u.summaries[i]).conversation_id,
            ) by {
                if i < t.summaries.len() {
                    assert(t.has_conversation(t.summaries[i].conversation_id));
                }
            }
            assert(u.all_belong());
        },
        Err(_) => {},
    }
}

/// Adding an attachment keeps soundness, and leaves all memories as they are.
pub proof fn law_sound_with_file(
    t: Tables,
    f: ConversationFile<Seq<char>>,
    touched_id: Seq<char>,
    touched_at: Seq<char>,
)
    requires
        t.sound(),
    ensures
        match t.with_file(f, touched_id, touched_at) {
            Ok(u) => u.sound() && u.memories == t.memories,
            Err(_) => true,
        },
{
    let same_id = is_file(f.id);
    lemma_first_where(t.files, same_id);
    match t.with_file(f, touched_id, touched_at) {
        Ok(_) => {
            assert(first_where(t.files, same_id) is None);
            assert forall|i: int| 0 <= i < t.files.len() implies file_key()(#[trigger] t.files[i])
                != file_key()(f) by {
                assert(!same_id(t.files[i]));
            }
            lemma_distinct_push(t.files, f, file_key());
            let u = Tables { files: t.files.push(f), ..t };
            assert forall|id: Seq<char>| #[trigger] u.has_conversation(id) == t.has_conversation(
                id,
            ) by {}
            assert forall|i: int| 0 <= i < u.files.len() implies u.has_conversation(
                (#[trigger] u.files[i]).conversation_id,
            ) by {
                if i < t.files.len() {
                    assert(t.has_conversation(t.files[i].conversation_id));
                }
            }
            assert(u.all_belong());
            law_sound_touched(u, touched_id, touched_at);
        },
        Err(_) => {},
    }
}

/// Deleting an attachment keeps soundness.
pub proof fn law_sound_file_deleted(
    t: Tables,
    id: Seq<char>,
    now: Seq<char>,
    touched_at: Seq<char>,
)
    requires
        t.sound(),
    ensures
        t.file_deleted(id, now, touched_at).0.sound(),
{
    match t.file(id) {
        None => {},
        Some(f) => {
            let u = Tables {
                files: changed(t.files, is_kept_file(id), deleted_file(now)),
                ..t
            };
            lemma_distinct_same(t.files, u.files, file_key());
            assert forall|k: Seq<char>| #[trigger] u.has_conversation(k) == t.has_conversation(
                k,
            ) by {}
            assert forall|i: int| 0 <= i < u.files.len() implies u.has_conversation(
                (#[trigger] u.files[i]).conversation_id,
            ) by {
                assert(t.has_conversation(t.files[i].conversation_id));
            }
            assert(u.all_belong());
            law_sound_touched(u, f.conversation_id, touched_at);
        },
    }
}

// ---------------------------------------------------------------------------
// Memories
// ---------------------------------------------------------------------------

/// What is stored with other memories is sound where they have different keys
/// and their importance is in its range.
proof fn lemma_sound_memories(t: Tables, memories: Seq<MemoryRow<Seq<char>>>)
    requires
        t.sound(),
        distinct(memories, memory_key()),
        forall|i: int| 0 <= i < memories.len() ==> 1 <= (#[trigger] memories[i]).importance <= 10,
    ensures
        (Tables { memories, ..t }).sound(),
{
    let u = Tables { memories, ..t };
    assert forall|k: Seq<char>| #[trigger] u.has_conversation(k) == t.has_conversation(k) by {}
    assert(u.all_belong()) by {
        assert forall|i: int| 0 <= i < u.messages.len() implies u.has_conversation(
            (#[trigger] u.messages[i]).conversation_id,
        ) by {
            assert(t.has_conversation(t.messages[i].conversation_id));
        }
        assert forall|i: int| 0 <= i < u.summaries.len() implies u.has_conversation(
            (#[trigger] u.summaries[i]).conversation_id,
        ) by {
            assert(t.has_conversation(t.summaries[i].conversation_id));
        }
        assert forall|i: int| 0 <= i < u.files.len() implies u.has_conversation(
            (#[trigger] u.files[i]).conversation_id,
        ) by {
            assert(t.has_conversation(t.files[i].conversation_id));
        }
    }
}

/// What is to be remembered has at least six characters and an importance
/// between one and ten.
pub proof fn law_notes_are_weighted(
    content: Seq<char>,
    importance: i64,
    scope: Seq<char>,
    conversation_id: Option<Seq<char>>,
    source_message_id: Option<Seq<char>>,
    source_conversation_id: Option<Seq<char>>,
)
    ensures
        match note_of(
            content,
            importance,
            scope,
            conversation_id,
            source_message_id,
            source_conversation_id,
        ) {
            Some(n) => 1 <= n.importance <= 10 && n.text.len() >= 6 && n.norm.len() > 0,
            None => true,
        },
{
}

/// Taking a note keeps soundness, removes no memory and adds at most one.
pub proof fn law_sound_remembered(
    t: Tables,
    note: Option<Note<Seq<char>>>,
    id: Seq<char>,
    now: Seq<char>,
)
    requires
        t.sound(),
        match note {
            Some(n) => 1 <= n.importance <= 10,
            None => true,
        },
    ensures
        match t.remembered(note, id, now) {
            Ok(u) => u.sound() && t.memories.len() <= u.memories.len() <= t.memories.len() + 1,
            Err(e) => e == DbError::MemoryExists,
        },
{
    match note {
        None => {},
        Some(n) => {
            let rows = t.memories;
            lemma_first_where(rows, says_same(n));
            match first_where(rows, says_same(n)) {
                Some(i) => {
                    lemma_sound_replaced(t, i, merged_row(rows[i], n, n.norm, now));
                },
                None => match alike(rows, n) {
                    Some(b) => {
                        lemma_first_where(rows, is_memory(b.id));
                        match first_where(rows, is_memory(b.id)) {
                            Some(i) => {
                                lemma_sound_replaced(
                                    t,
                                    i,
                                    merged_row(
                                        b,
                                        n,
                                        matchable(merged_content(b.content, n.text)),
                                        now,
                                    ),
                                );
                            },
                            None => {},
                        }
                    },
                    None => {
                        lemma_first_where(rows, is_memory(id));
                        if first_where(rows, is_memory(id)) is None {
                            let row = new_row(n, id, now);
                            assert forall|k: int| 0 <= k < rows.len() implies memory_key()(
                                #[trigger] rows[k],
                            ) != memory_key()(row) by {
                                assert(!is_memory(id)(rows[k]));
                            }
                            lemma_distinct_push(rows, row, memory_key());
                            lemma_sound_memories(t, rows.push(row));
                        }
                    },
                },
            }
        },
    }
}

/// A memory may be replaced by one with the same key.
proof fn lemma_sound_replaced(t: Tables, i: int, row: MemoryRow<Seq<char>>)
    requires
        t.sound(),
        0 <= i < t.memories.len(),
        row.id == t.memories[i].id,
        1 <= row.importance <= 10,
    ensures
        (Tables { memories: t.memories.update(i, row), ..t }).sound(),
{
    let rows = t.memories.update(i, row);
    assert forall|k: int| 0 <= k < rows.len() implies memory_key()(#[trigger] rows[k])
        == memory_key()(t.memories[k]) by {}
    lemma_distinct_same(t.memories, rows, memory_key());
    assert forall|k: int| 0 <= k < rows.len() implies 1 <= (#[trigger] rows[k]).importance <= 10 by {
        if k != i {
            assert(rows[k] == t.memories[k]);
        }
    }
    lemma_sound_memories(t, rows);
}

/// Moving a memory keeps soundness.
pub proof fn law_sound_rescoped(
    t: Tables,
    memory_id: Seq<char>,
    make_global: bool,
    conversation_id: Option<Seq<char>>,
    now: Seq<char>,
)
    requires
        t.sound(),
    ensures
        match t.rescoped(memory_id, make_global, conversation_id, now) {
            Ok(u) => u.sound(),
            Err(_) => true,
        },
{
    let rows = t.memories;
    lemma_first_where(rows, is_memory(memory_id));
    match first_where(rows, is_memory(memory_id)) {
        None => {},
        Some(at) => {
            let m = rows[at];
            let target = target_conversation(m, make_global, conversation_id);
            let scope = target_scope(make_global);
            let twin = is_twin(m, scope, target);
            lemma_first_where(rows, twin);
            match first_where(rows, twin) {
                Some(k) => {
                    let kept = united(rows[k], m, now);
                    lemma_sound_replaced(t, k, kept);
                    let u = Tables { memories: rows.update(k, kept), ..t };
                    let p = is_other_memory(m.id);
                    lemma_distinct_filter(u.memories, memory_key(), p);
                    let left = u.memories.filter(p);
                    assert forall|i: int| 0 <= i < left.len() implies 1 <= (
                    #[trigger] left[i]).importance <= 10 by {
                        let j = lemma_filter_member(u.memories, p, i);
                        assert(1 <= u.memories[j].importance <= 10);
                    }
                    lemma_sound_memories(t, left);
                },
                None => {
                    lemma_sound_replaced(
                        t,
                        at,
                        MemoryRow {
                            scope,
                            conversation_id: target,
                            updated_at: now,
                            last_used_at: now,
                            ..m
                        },
                    );
                },
            }
            assert(Tables { memories: rows, ..t } == t);
        },
    }
}

/// Memories that come to mind keep soundness.
pub proof fn law_sound_after_use(t: Tables, hits: Seq<MemoryRow<Seq<char>>>, now: Seq<char>)
    requires
        t.sound(),
    ensures
        t.after_use(hits, now).sound(),
{
    let rows = t.after_use(hits, now).memories;
    lemma_distinct_same(t.memories, rows, memory_key());
    assert forall|k: int| 0 <= k < rows.len() implies 1 <= (#[trigger] rows[k]).importance <= 10 by {
        assert(1 <= t.memories[k].importance <= 10);
    }
    lemma_sound_memories(t, rows);
}

proof fn lemma_all_faded(rows: Seq<MemoryRow<Seq<char>>>, ages: Seq<Option<i64>>, now: Seq<char>)
    requires
        distinct(rows, memory_key()),
        forall|i: int| 0 <= i < rows.len() ==> 1 <= (#[trigger] rows[i]).importance <= 10,
    ensures
        ({
            let left = all_faded(rows, ages, now);
            &&& distinct(left, memory_key())
            &&& forall|i: int| 0 <= i < left.len() ==> 1 <= (#[trigger] left[i]).importance <= 10
            &&& forall|i: int|
                0 <= i < left.len() ==> exists|j: int|
                    0 <= j < rows.len() && (#[trigger] rows[j]).id == (#[trigger] left[i]).id
                        && left[i].importance <= rows[j].importance
        }),
    decreases rows.len(),
{
    if rows.len() > 0 {
        let front = rows.drop_last();
        let n = rows.len() - 1;
        assert forall|i: int, j: int| 0 <= i < j < front.len() implies memory_key()(
            #[trigger] front[i],
        ) != memory_key()(#[trigger] front[j]) by {
            assert(memory_key()(rows[i]) != memory_key()(rows[j]));
        }
        assert forall|i: int| 0 <= i < front.len() implies 1 <= (#[trigger] front[i]).importance
            <= 10 by {
            assert(front[i] == rows[i]);
        }
        lemma_all_faded(front, ages, now);
        let before = all_faded(front, ages, now);
        let last = faded(rows.last(), crate::db::upkeep::age_of(ages, n), now);
        let left = all_faded(rows, ages, now);
        assert(1 <= rows[n].importance <= 10);
        assert forall|i: int| 0 <= i < before.len() implies exists|j: int|
            0 <= j < rows.len() && (#[trigger] rows[j]).id == (#[trigger] before[i]).id
                && before[i].importance <= rows[j].importance && j < n by {
            let j = choose|j: int|
                0 <= j < front.len() && (#[trigger] front[j]).id == before[i].id
                    && before[i].importance <= front[j].importance;
            assert(rows[j] == front[j]);
        }
        if left.len() > before.len() {
            assert forall|i: int| 0 <= i < before.len() implies memory_key()(#[trigger] before[i])
                != memory_key()(last) by {
                let j = choose|j: int|
                    0 <= j < rows.len() && (#[trigger] rows[j]).id == before[i].id
                        && before[i].importance <= rows[j].importance && j < n;
                assert(memory_key()(rows[j]) != memory_key()(rows[n]));
            }
            lemma_distinct_push(before, last, memory_key());
            assert(left == before.push(last));
            assert forall|i: int| 0 <= i < left.len() implies exists|j: int|
                0 <= j < rows.len() && (#[trigger] rows[j]).id == (#[trigger] left[i]).id
                    && left[i].importance <= rows[j].importance by {
                if i < before.len() {
                    assert(left[i] == before[i]);
                } else {
                    assert(rows[n].id == left[i].id);
                }
            }
        }
    }
}

/// Fading keeps soundness and makes no memory more important.
pub proof fn law_sound_faded(t: Tables, ages: Seq<Option<i64>>, now: Seq<char>)
    requires
        t.sound(),
    ensures
        (Tables { memories: all_faded(t.memories, ages, now), ..t }).sound(),
        forall|i: int|
            0 <= i < all_faded(t.memories, ages, now).len() ==> exists|j: int|
                0 <= j < t.memories.len() && (#[trigger] t.memories[j]).id == (
                #[trigger] all_faded(t.memories, ages, now)[i]).id && all_faded(
                    t.memories,
                    ages,
                    now,
                )[i].importance <= t.memories[j].importance,
{
    lemma_all_faded(t.memories, ages, now);
    lemma_sound_memories(t, all_faded(t.memories, ages, now));
}

// ---------------------------------------------------------------------------
// Settings and profiles
// ---------------------------------------------------------------------------

/// What is stored with other settings and profiles is sound where the settings
/// have different keys.
proof fn lemma_sound_settings(t: Tables, u: Tables)
    requires
        t.sound(),
        u == (Tables {
            settings: u.settings,
            user_profile: u.user_profile,
            style_profile: u.style_profile,
            ..t
        }),
        distinct(u.settings, setting_key()),
    ensures
        u.sound(),
{
    assert forall|k: Seq<char>| #[trigger] u.has_conversation(k) == t.has_conversation(k) by {}
    lemma_sound_memories(t, t.memories);
    assert(u.all_belong()) by {
        assert forall|i: int| 0 <= i < u.messages.len() implies u.has_conversation(
            (#[trigger] u.messages[i]).conversation_id,
        ) by {
            assert(t.has_conversation(t.messages[i].conversation_id));
        }
        assert forall|i: int| 0 <= i < u.summaries.len() implies u.has_conversation(
            (#[trigger] u.summaries[i]).conversation_id,
        ) by {
            assert(t.has_conversation(t.summaries[i].conversation_id));
        }
        assert forall|i: int| 0 <= i < u.files.len() implies u.has_conversation(
            (#[trigger] u.files[i]).conversation_id,
        ) by {
            assert(t.has_conversation(t.files[i].conversation_id));
        }
    }
}

/// Storing a setting keeps soundness.
pub proof fn law_sound_with_setting(t: Tables, key: Seq<char>, value: Seq<char>, now: Seq<char>)
    requires
        t.sound(),
    ensures
        t.with_setting(key, value, now).sound(),
{
    let u = t.with_setting(key, value, now);
    if t.setting(key) is Some {
        lemma_distinct_same(t.settings, u.settings, setting_key());
    } else {
        lemma_first_where(t.settings, has_key(key));
        let row = Setting { key, value, updated_at: now };
        assert forall|i: int| 0 <= i < t.settings.len() implies setting_key()(
            #[trigger] t.settings[i],
        ) != setting_key()(row) by {
            assert(!has_key(key)(t.settings[i]));
        }
        lemma_distinct_push(t.settings, row, setting_key());
    }
    lemma_sound_settings(t, u);
}

/// Storing settings keeps soundness.
pub proof fn law_sound_with_settings(
    t: Tables,
    pairs: Seq<(Seq<char>, Seq<char>)>,
    now: Seq<char>,
)
    requires
        t.sound(),
    ensures
        t.with_settings(pairs, now).sound(),
        t.with_defaults(pairs, now).sound(),
    decreases pairs.len(),
{
    if pairs.len() > 0 {
        let front = pairs.drop_last();
        law_sound_with_settings(t, front, now);
        law_sound_with_setting(
            t.with_settings(front, now),
            pairs.last().0,
            pairs.last().1,
            now,
        );
        law_sound_with_setting(
            t.with_defaults(front, now),
            pairs.last().0,
            pairs.last().1,
            now,
        );
    }
}

/// Replacing profiles keeps soundness.
pub proof fn law_sound_profiles(
    t: Tables,
    u: UserProfile<Seq<char>>,
    s: StyleProfile<Seq<char>>,
    now: Seq<char>,
)
    requires
        t.sound(),
    ensures
        t.with_user(u, now).sound(),
        t.with_style(s, now).sound(),
        t.with_profiles(now, now).sound(),
{
    lemma_sound_settings(t, t.with_user(u, now));
    lemma_sound_settings(t, t.with_style(s, now));
    lemma_sound_settings(t, t.with_profiles(now, now));
}

/// The start of the program keeps soundness, and afterwards the numbers of the
/// conversations leave room before the first and behind the last.
pub proof fn law_sound_started(
    t: Tables,
    settings_now: Seq<char>,
    user_now: Seq<char>,
    style_now: Seq<char>,
)
    requires
        t.sound(),
    ensures
        t.started(settings_now, user_now, style_now).sound(),
        crate::db::ordering::has_room(
            t.started(settings_now, user_now, style_now).conversations,
        ),
{
    let pairs = crate::db::chat_settings::first_settings(
        crate::json::texts_json(crate::settings::default_model_names()),
    );
    law_sound_with_settings(t, pairs, settings_now);
    let a = t.with_defaults(pairs, settings_now);
    let b = a.with_profiles(user_now, style_now);
    lemma_sound_settings(a, b);
    let c = b.with_fresh_norms();
    lemma_distinct_same(b.memories, c.memories, memory_key());
    assert forall|i: int| 0 <= i < c.memories.len() implies 1 <= (#[trigger] c.memories[i]).importance
        <= 10 by {
        assert(1 <= b.memories[i].importance <= 10);
    }
    lemma_sound_memories(b, c.memories);
    law_sound_order(c, Seq::empty(), false, false, settings_now);
    crate::db::ordering::law_numbered_has_room(c.conversations);
}

} // verus!
