//! What is there after conversations, messages, attachments and summaries were
//! stored, changed and deleted.
use vstd::prelude::*;
use crate::db::attachments::{is_kept_file_in, new_file, upload_order};
use crate::db::conversations::{found_by, is_found, list_order, overrides_of};
use crate::db::messages::{
    is_kept_in, is_not_after, law_timeline, new_message, page_from_end, writing_order,
};
use crate::db::order_laws::{lemma_sorted_from, lemma_sorted_has};
use crate::db::soundness::{lemma_filter_keeps, lemma_filter_member};
use crate::db::summaries::{is_summary_of, last_index, newest_segment_first, next_index, record_of};
use crate::db::{
    file_elsewhere, is_other_conversation, is_other_message, message_elsewhere, summary_elsewhere,
    DbError, Tables,
};
use crate::models::{
    ChatOverrides, Conversation, ConversationFile, ConversationRow, Message, SummaryRow,
    TokenUsage,
};
use crate::pattern::{anywhere, law_plain_search, stands_at};
use crate::sorting::{is_order, law_sorted, sorted};
use crate::table::lemma_first_where;
use crate::text::{
    ascii_lower, before_nul, law_text_order_total, law_text_order_transitive, text_le, trimmed,
};

verus! {

/// What is left of a row by a rule is what was there and obeys it.
pub proof fn lemma_left<A>(s: Seq<A>, p: spec_fn(A) -> bool)
    ensures
        forall|x: A| #[trigger] s.filter(p).contains(x) <==> s.contains(x) && p(x),
{
    let r = s.filter(p);
    assert forall|x: A| #[trigger] r.contains(x) <==> s.contains(x) && p(x) by {
        if r.contains(x) {
            let j = lemma_filter_member(s, p, r.index_of(x));
            assert(s[j] == x);
        }
        if s.contains(x) && p(x) {
            let i = lemma_filter_keeps(s, p, s.index_of(x));
            assert(r[i] == x);
        }
    }
}

/// Sorting changes the order alone.
pub proof fn lemma_same_rows<A>(s: Seq<A>, le: spec_fn(A, A) -> bool)
    ensures
        sorted(s, le).len() == s.len(),
        forall|x: A| #[trigger] sorted(s, le).contains(x) <==> s.contains(x),
{
    law_sorted(s, le);
    let r = sorted(s, le);
    assert forall|x: A| #[trigger] r.contains(x) <==> s.contains(x) by {
        if r.contains(x) {
            let i = lemma_sorted_from(s, le, r.index_of(x));
            assert(s[i] == x);
        }
        if s.contains(x) {
            let k = lemma_sorted_has(s, le, s.index_of(x));
            assert(r[k] == x);
        }
    }
}

// ---------------------------------------------------------------------------
// Order
// ---------------------------------------------------------------------------

/// Texts are ordered by the first character in which they differ; a text comes
/// before what it begins.
pub proof fn law_texts_are_ordered(p: Seq<char>, c: char, d: char, x: Seq<char>, y: Seq<char>)
    requires
        c != d,
    ensures
        text_le(p + seq![c] + x, p + seq![d] + y) <==> (c as u32) < (d as u32),
        text_le(p, p + y),
    decreases p.len(),
{
    let a = p + seq![c] + x;
    let b = p + seq![d] + y;
    if p.len() > 0 {
        law_texts_are_ordered(p.drop_first(), c, d, x, y);
        assert(a.drop_first() =~= p.drop_first() + seq![c] + x);
        assert(b.drop_first() =~= p.drop_first() + seq![d] + y);
        assert((p + y).drop_first() =~= p.drop_first() + y);
    }
}

/// The messages of a conversation are told from the oldest to the newest.
pub proof fn law_messages_are_in_order(t: Tables, conversation_id: Seq<char>, i: int, j: int)
    requires
        0 <= i <= j < t.timeline(conversation_id).len(),
    ensures
        text_le(
            t.timeline(conversation_id)[i].created_at,
            t.timeline(conversation_id)[j].created_at,
        ),
{
    law_timeline(t, conversation_id);
    assert(writing_order()(t.timeline(conversation_id)[i], t.timeline(conversation_id)[j]));
}

/// A page holds the newest messages but those that were skipped, as many as were
/// asked for, in their order.
pub proof fn law_pages_count_from_the_newest<A>(s: Seq<A>, limit: int, offset: int)
    requires
        limit >= 0,
        offset >= 0,
    ensures
        ({
            let page = page_from_end(s, limit, offset);
            let left = if s.len() <= offset {
                0
            } else {
                s.len() - offset
            };
            &&& page.len() == if left < limit {
                left
            } else {
                limit
            }
            &&& forall|k: int|
                0 <= k < page.len() ==> #[trigger] page[k] == s[left - page.len() + k]
        }),
{
}

// ---------------------------------------------------------------------------
// Messages
// ---------------------------------------------------------------------------

/// A message that is newer than the others comes last in its conversation, and
/// the others stay as they were. The conversation was changed then, and no other
/// was.
pub proof fn law_new_messages_come_last(t: Tables, m: Message<Seq<char>>, touched_at: Seq<char>)
    requires
        m.deleted_at is None,
        forall|i: int|
            0 <= i < t.messages.len() ==> text_le(
                (#[trigger] t.messages[i]).created_at,
                m.created_at,
            ),
    ensures
        match t.with_message(m, touched_at) {
            Ok(u) => {
                &&& u.timeline(m.conversation_id) == t.timeline(m.conversation_id).push(m)
                &&& forall|id: Seq<char>|
                    id != m.conversation_id ==> #[trigger] u.timeline(id) == t.timeline(id)
                &&& u.conversations.len() == t.conversations.len()
                &&& forall|i: int|
                    0 <= i < t.conversations.len() ==> #[trigger] u.conversations[i] == (
                    ConversationRow {
                        updated_at: if t.conversations[i].id == m.conversation_id {
                            touched_at
                        } else {
                            t.conversations[i].updated_at
                        },
                        ..t.conversations[i]
                    })
                &&& u.memories == t.memories
                &&& u.summaries == t.summaries
                &&& u.settings == t.settings
            },
            Err(_) => true,
        },
{
    reveal(Seq::filter);
    match t.with_message(m, touched_at) {
        Ok(u) => {
            let p = is_kept_in(m.conversation_id);
            assert(u.messages == t.messages.push(m));
            assert(u.messages.drop_last() =~= t.messages);
            let kept = t.messages.filter(p);
            assert(u.messages.filter(p) == kept.push(m));
            assert(kept.push(m).drop_last() =~= kept);
            let all = sorted(kept, writing_order());
            law_sorted(kept, writing_order());
            if all.len() > 0 {
                let i = lemma_sorted_from(kept, writing_order(), all.len() - 1);
                let j = lemma_filter_member(t.messages, p, i);
                assert(writing_order()(all.last(), m));
            }
            assert forall|id: Seq<char>| id != m.conversation_id implies #[trigger] u.timeline(id)
                == t.timeline(id) by {
                assert(u.messages.filter(is_kept_in(id)) == t.messages.filter(is_kept_in(id)));
            }
        },
        Err(_) => {},
    }
}

/// A new message is what was said, by whom and where; it is not deleted.
pub proof fn law_new_messages_hold_what_was_said(
    id: Seq<char>,
    conversation_id: Seq<char>,
    role: Seq<char>,
    content: Seq<char>,
    reasoning: Seq<char>,
    usage: TokenUsage,
    now: Seq<char>,
)
    ensures
        ({
            let m = new_message(id, conversation_id, role, content, reasoning, usage, now);
            &&& m.id == id
            &&& m.conversation_id == conversation_id
            &&& m.role == role
            &&& m.content == content
            &&& m.reasoning_content == reasoning
            &&& m.token_usage == usage
            &&& m.created_at == now
            &&& m.updated_at == now
            &&& m.deleted_at is None
        }),
{
}

/// Editing a message replaces its content, and touches nothing else of it nor
/// any other message; a deleted message is not edited.
pub proof fn law_editing_replaces_the_content(
    t: Tables,
    id: Seq<char>,
    content: Seq<char>,
    now: Seq<char>,
    i: int,
)
    requires
        0 <= i < t.messages.len(),
    ensures
        ({
            let u = t.with_content(id, content, now);
            let m = t.messages[i];
            &&& u.messages.len() == t.messages.len()
            &&& m.id == id && m.deleted_at is None ==> u.messages[i] == (Message {
                content,
                updated_at: now,
                ..m
            })
            &&& m.id != id || m.deleted_at is Some ==> u.messages[i] == m
            &&& u == (Tables { messages: u.messages, ..t })
        }),
{
}

/// A message that is deleted softly is only marked, with the reason; else its
/// row is gone. No other message is touched. The summaries of its conversation
/// go with it, those of others stay.
pub proof fn law_deleting_a_message(
    t: Tables,
    id: Seq<char>,
    reason: Seq<char>,
    now: Seq<char>,
    touched_at: Seq<char>,
    i: int,
)
    requires
        0 <= i < t.messages.len(),
        t.any_message(id) is Some,
    ensures
        ({
            let owner = t.any_message(id)->0.conversation_id;
            let soft = t.message_deleted(id, true, reason, now, touched_at).0;
            let hard = t.message_deleted(id, false, reason, now, touched_at).0;
            let m = t.messages[i];
            &&& soft.messages.len() == t.messages.len()
            &&& m.id == id && m.deleted_at is None ==> soft.messages[i] == (Message {
                deleted_at: Some(now),
                deleted_reason: trimmed(reason),
                updated_at: now,
                ..m
            })
            &&& m.id != id ==> soft.messages[i] == m
            &&& forall|x: Message<Seq<char>>| #[trigger]
                hard.messages.contains(x) <==> t.messages.contains(x) && x.id != id
            &&& forall|s: SummaryRow<Seq<char>>| #[trigger]
                soft.summaries.contains(s) <==> t.summaries.contains(s) && s.conversation_id
                    != owner
            &&& forall|s: SummaryRow<Seq<char>>| #[trigger]
                hard.summaries.contains(s) <==> t.summaries.contains(s) && s.conversation_id
                    != owner
            &&& soft.memories == t.memories
            &&& hard.memories == t.memories
        }),
{
    let owner = t.any_message(id)->0.conversation_id;
    lemma_left(t.messages, is_other_message(id));
    lemma_left(t.summaries, summary_elsewhere(owner));
}

/// Cutting a conversation off behind a message leaves exactly what was written
/// up to it; other conversations keep everything.
pub proof fn law_truncation_keeps_what_came_before(
    t: Tables,
    id: Seq<char>,
    touched_at: Seq<char>,
    x: Message<Seq<char>>,
)
    requires
        t.message(id) is Some,
    ensures
        ({
            let m = t.message(id)->0;
            let u = t.truncated_after(id, touched_at).0;
            &&& u.messages.contains(x) <==> t.messages.contains(x) && (x.conversation_id
                != m.conversation_id || text_le(x.created_at, m.created_at))
            &&& u.memories == t.memories
            &&& u.files == t.files
        }),
{
    let m = t.message(id)->0;
    lemma_left(t.messages, is_not_after(m.conversation_id, m.created_at));
}

// ---------------------------------------------------------------------------
// Conversations
// ---------------------------------------------------------------------------

/// A new conversation has the title it was given, without the white space around
/// it, or a first one; it is not pinned, has no messages and no settings of its
/// own.
pub proof fn law_new_conversations(t: Tables, title: Seq<char>, id: Seq<char>, now: Seq<char>)
    ensures
        match t.with_conversation(Some(title), id, now) {
            Ok((u, c)) => {
                &&& c.id == id
                &&& trimmed(title).len() > 0 ==> c.title == trimmed(title)
                &&& trimmed(title).len() == 0 ==> c.title == "New Chat"@
                &&& c.created_at == now
                &&& c.updated_at == now
                &&& !c.is_pinned
                &&& c.message_count == 0
                &&& c.model_override.len() == 0
                &&& c.provider_override.len() == 0
                &&& c.base_url_override.len() == 0
                &&& c.system_prompt.len() == 0
                &&& c.thinking_override.len() == 0
                &&& c.reasoning_effort_override.len() == 0
                &&& c.temperature_override is None
                &&& c.max_tokens_override is None
                &&& c.max_context_tokens_override is None
                &&& c.max_recent_messages_override is None
                &&& c.max_memory_items_override is None
                &&& u.conversations.len() == t.conversations.len() + 1
                &&& u.messages == t.messages
                &&& u.memories == t.memories
            },
            Err(e) => e == DbError::ConversationExists,
        },
        match t.with_conversation(None, id, now) {
            Ok((_, c)) => c.title == "New Chat"@,
            Err(_) => true,
        },
{
    reveal_strlit("");
}

/// Deleting a conversation takes away the conversation, its messages, its
/// summaries and its attachments, and nothing else: memories and settings stay.
pub proof fn law_deleting_a_conversation(t: Tables, id: Seq<char>)
    requires
        t.has_conversation(id),
    ensures
        ({
            let u = t.without_conversation(id);
            &&& forall|c: ConversationRow<Seq<char>>| #[trigger]
                u.conversations.contains(c) <==> t.conversations.contains(c) && c.id != id
            &&& forall|m: Message<Seq<char>>| #[trigger]
                u.messages.contains(m) <==> t.messages.contains(m) && m.conversation_id != id
            &&& forall|s: SummaryRow<Seq<char>>| #[trigger]
                u.summaries.contains(s) <==> t.summaries.contains(s) && s.conversation_id != id
            &&& forall|f: ConversationFile<Seq<char>>| #[trigger]
                u.files.contains(f) <==> t.files.contains(f) && f.conversation_id != id
            &&& u.memories == t.memories
            &&& u.settings == t.settings
            &&& u.user_profile == t.user_profile
            &&& u.style_profile == t.style_profile
        }),
{
    lemma_left(t.conversations, is_other_conversation(id));
    lemma_left(t.messages, message_elsewhere(id));
    lemma_left(t.summaries, summary_elsewhere(id));
    lemma_left(t.files, file_elsewhere(id));
}

/// `q` stands in the title at a place, in either case of ASCII letters.
pub open spec fn reads_at(title: Seq<char>, q: Seq<char>, i: int) -> bool {
    &&& 0 <= i
    &&& i + q.len() <= title.len()
    &&& forall|k: int|
        0 <= k < q.len() ==> ascii_lower(#[trigger] q[k]) == ascii_lower(title[i + k])
}

/// A search for a text without wildcards finds the conversations in whose titles
/// it stands, in either case of ASCII letters.
pub proof fn law_searching_titles(c: ConversationRow<Seq<char>>, query: Seq<char>)
    requires
        !query.contains('\0'),
        !query.contains('%'),
        !query.contains('_'),
        !c.title.contains('\0'),
        trimmed(query).len() > 0,
    ensures
        is_found(c, query) <==> exists|i: int| #[trigger] reads_at(c.title, trimmed(query), i),
        is_found(c, Seq::empty()),
{
    let q = trimmed(query);
    crate::files::lemma_trimmed_part(query);
    let (a, b) = choose|a: int, b: int|
        0 <= a <= b <= query.len() && #[trigger] query.subrange(a, b) == trimmed(query);
    assert forall|k: int| 0 <= k < q.len() implies #[trigger] q[k] != '%' && q[k] != '_' && q[k]
        != '\0' by {
        assert(q[k] == query[a + k]);
    }
    lemma_no_nul(c.title);
    let p = anywhere(q);
    assert(!p.contains('\0')) by {
        if p.contains('\0') {
            let k = p.index_of('\0');
            assert(p[k] == '\0');
            assert(0 < k < p.len() - 1);
            assert(p[k] == q[k - 1]);
        }
    }
    lemma_no_nul(p);
    law_plain_search(q, c.title);
    if exists|i: int| stands_at(c.title, q, i) {
        let i = choose|i: int| stands_at(c.title, q, i);
        assert(reads_at(c.title, q, i));
    }
    if exists|i: int| #[trigger] reads_at(c.title, q, i) {
        let i = choose|i: int| #[trigger] reads_at(c.title, q, i);
        assert(stands_at(c.title, q, i));
    }
    let none = Seq::<char>::empty();
    crate::text::law_trimmed_of(none, none, none);
    assert(none + none + none =~= none);
}

proof fn lemma_no_nul(s: Seq<char>)
    requires
        !s.contains('\0'),
    ensures
        before_nul(s) == s,
    decreases s.len(),
{
    if s.len() > 0 {
        assert(s.contains(s[0]));
        if s.drop_first().contains('\0') {
            let k = s.drop_first().index_of('\0');
            assert(s[k + 1] == '\0');
        }
        lemma_no_nul(s.drop_first());
        assert(seq![s[0]] + s.drop_first() =~= s);
    } else {
        assert(before_nul(s) =~= s);
    }
}

/// A search without a limit lists every conversation that it finds, and only
/// those, as they are stored; each with the number of its messages that were not
/// deleted.
pub proof fn law_found_conversations_are_listed(t: Tables, query: Seq<char>, i: int)
    requires
        0 <= i < t.conversations.len(),
    ensures
        ({
            let c = t.conversations[i];
            let found = t.found_conversations(query, -1);
            &&& is_found(c, query) ==> exists|k: int|
                0 <= k < found.len() && (#[trigger] found[k]).id == c.id && found[k].title
                    == c.title && found[k].is_pinned == c.is_pinned && found[k].updated_at
                    == c.updated_at && found[k].model_override == c.model_override
                    && found[k].provider_override == c.provider_override
                    && found[k].base_url_override == c.base_url_override
                    && found[k].system_prompt == c.system_prompt
            &&& forall|k: int|
                0 <= k < found.len() ==> exists|j: int|
                    0 <= j < t.conversations.len() && (#[trigger] t.conversations[j]).id == (
                    #[trigger] found[k]).id && is_found(t.conversations[j], query)
            &&& found.len() <= t.conversations.len()
        }),
{
    let p = found_by(query);
    let kept = t.conversations.filter(p);
    let all = sorted(kept, list_order());
    law_sorted(kept, list_order());
    let found = t.found_conversations(query, -1);
    assert(found.len() == all.len());
    lemma_filter_len(t.conversations, p);
    if is_found(t.conversations[i], query) {
        let a = lemma_filter_keeps(t.conversations, p, i);
        let k = lemma_sorted_has(kept, list_order(), a);
        assert(found[k].id == t.conversations[i].id);
    }
    assert forall|k: int| 0 <= k < found.len() implies exists|j: int|
        0 <= j < t.conversations.len() && (#[trigger] t.conversations[j]).id == (
        #[trigger] found[k]).id && is_found(t.conversations[j], query) by {
        let a = lemma_sorted_from(kept, list_order(), k);
        let j = lemma_filter_member(t.conversations, p, a);
        assert(t.conversations[j].id == found[k].id);
    }
}

proof fn lemma_filter_len<A>(s: Seq<A>, p: spec_fn(A) -> bool)
    ensures
        s.filter(p).len() <= s.len(),
    decreases s.len(),
{
    reveal(Seq::filter);
    if s.len() > 0 {
        lemma_filter_len(s.drop_last(), p);
    }
}

/// The messages of a conversation are counted without those that were deleted:
/// one more where a message is added to it, none where to another.
pub proof fn law_messages_are_counted(t: Tables, m: Message<Seq<char>>, id: Seq<char>)
    ensures
        ({
            let u = Tables { messages: t.messages.push(m), ..t };
            &&& m.conversation_id == id && m.deleted_at is None ==> u.message_count(id)
                == t.message_count(id) + 1
            &&& m.conversation_id != id || m.deleted_at is Some ==> u.message_count(id)
                == t.message_count(id)
            &&& t.messages.len() == 0 ==> t.message_count(id) == 0
        }),
{
    reveal(Seq::filter);
    assert(t.messages.push(m).drop_last() =~= t.messages);
}

/// The settings of a conversation are those that are stored under their names.
pub proof fn law_overrides_are_what_is_stored(c: ConversationRow<Seq<char>>)
    ensures
        overrides_of(c).provider == c.provider_override,
        overrides_of(c).model == c.model_override,
        overrides_of(c).base_url == c.base_url_override,
        overrides_of(c).temperature == c.temperature_override,
        overrides_of(c).max_tokens == c.max_tokens_override,
        overrides_of(c).max_context_tokens == c.max_context_tokens_override,
        overrides_of(c).max_recent_messages == c.max_recent_messages_override,
        overrides_of(c).max_memory_items == c.max_memory_items_override,
        overrides_of(c).system_prompt == c.system_prompt,
        overrides_of(c).thinking == c.thinking_override,
        overrides_of(c).reasoning_effort == c.reasoning_effort_override,
{
}

/// A conversation is given a title; one that has a title of its own is not
/// given another by itself.
pub proof fn law_titles(t: Tables, id: Seq<char>, title: Seq<char>, now: Seq<char>, i: int)
    requires
        0 <= i < t.conversations.len(),
    ensures
        ({
            let c = t.conversations[i];
            let u = t.titled(id, title, now);
            let v = t.auto_titled(id, title, now);
            &&& u.conversations.len() == t.conversations.len()
            &&& c.id == id ==> u.conversations[i] == (ConversationRow {
                title,
                updated_at: now,
                ..c
            })
            &&& c.id != id ==> u.conversations[i] == c && v.conversations[i] == c
            &&& match t.conversation(id) {
                Some(x) => if x.title == "New Chat"@ || x.title == "新对话"@ || x.title.len() == 0 {
                    v == u
                } else {
                    v == t
                },
                None => v == t,
            }
            &&& u.messages == t.messages
        }),
{
    reveal_strlit("");
    match t.conversation(id) {
        Some(x) => {
            if x.title.len() == 0 {
                assert(x.title =~= ""@);
            }
        },
        None => {},
    }
}

/// The model that a conversation is given is its model; nothing else of it, and
/// no other conversation, changes.
pub proof fn law_models_are_given(t: Tables, id: Seq<char>, model: Seq<char>, now: Seq<char>, i: int)
    requires
        0 <= i < t.conversations.len(),
    ensures
        ({
            let c = t.conversations[i];
            let u = t.remodelled(id, model, now);
            &&& u.conversations.len() == t.conversations.len()
            &&& c.id == id ==> u.conversations[i] == (ConversationRow {
                model_override: model,
                updated_at: now,
                ..c
            })
            &&& c.id != id ==> u.conversations[i] == c
            &&& u.messages == t.messages
        }),
{
}

// ---------------------------------------------------------------------------
// Attachments
// ---------------------------------------------------------------------------

/// A stored attachment is what was sent; it is not deleted.
pub proof fn law_new_attachments(
    id: Seq<char>,
    conversation_id: Seq<char>,
    name: Seq<char>,
    path: Seq<char>,
    size: i64,
    content: Seq<char>,
    summary: Seq<char>,
    now: Seq<char>,
)
    ensures
        ({
            let f = new_file(id, conversation_id, name, path, size, content, summary, now);
            &&& f.id == id
            &&& f.conversation_id == trimmed(conversation_id)
            &&& f.file_name == trimmed(name)
            &&& f.file_path == trimmed(path)
            &&& size >= 0 ==> f.file_size == size
            &&& size < 0 ==> f.file_size == 0
            &&& f.content_text == content
            &&& f.summary == summary
            &&& f.created_at == now
            &&& f.deleted_at is None
        }),
{
}

/// The attachments of a conversation are listed the newest first, each that was
/// not deleted, as long as there are no more than were asked for; the list is
/// without their texts.
pub proof fn law_attachments_are_listed(
    t: Tables,
    conversation_id: Seq<char>,
    limit: int,
    f: ConversationFile<Seq<char>>,
    i: int,
    j: int,
)
    requires
        trimmed(conversation_id) == conversation_id,
        t.files.len() <= limit,
    ensures
        ({
            let all = t.files_of(conversation_id, limit);
            &&& t.files.contains(f) && f.conversation_id == conversation_id && f.deleted_at is None
                ==> all.contains(f)
            &&& 0 <= i <= j < all.len() ==> text_le(all[j].created_at, all[i].created_at)
            &&& t.file_list(conversation_id, limit).len() == all.len()
            &&& 0 <= i < all.len() ==> t.file_list(conversation_id, limit)[i] == (
            ConversationFile { content_text: ""@, ..all[i] })
        }),
{
    let p = is_kept_file_in(conversation_id);
    let kept = t.files.filter(p);
    let le = upload_order();
    let up = sorted(kept, le);
    assert(is_order(le)) by {
        assert forall|a: ConversationFile<Seq<char>>, b: ConversationFile<Seq<char>>| #[trigger]
            le(a, b) || le(b, a) by {
            law_text_order_total(a.created_at, b.created_at);
        }
        assert forall|
            a: ConversationFile<Seq<char>>,
            b: ConversationFile<Seq<char>>,
            c: ConversationFile<Seq<char>>,
        | #[trigger] le(a, b) && #[trigger] le(b, c) implies le(a, c) by {
            law_text_order_transitive(a.created_at, b.created_at, c.created_at);
        }
    }
    law_sorted(kept, le);
    lemma_filter_len(t.files, p);
    let all = t.files_of(conversation_id, limit);
    assert(all.len() == up.len());
    assert forall|k: int| 0 <= k < up.len() implies #[trigger] all[k] == up[up.len() - 1 - k] by {}
    if t.files.contains(f) && f.conversation_id == conversation_id && f.deleted_at is None {
        let a = lemma_filter_keeps(t.files, p, t.files.index_of(f));
        let k = lemma_sorted_has(kept, le, a);
        assert(all[up.len() - 1 - k] == f);
    }
    if 0 <= i <= j < all.len() {
        assert(le(up[up.len() - 1 - j], up[up.len() - 1 - i]));
    }
}

/// An attachment that is deleted is marked, and no other is touched.
pub proof fn law_deleting_an_attachment(
    t: Tables,
    id: Seq<char>,
    now: Seq<char>,
    touched_at: Seq<char>,
    i: int,
)
    requires
        0 <= i < t.files.len(),
    ensures
        ({
            let (u, gone) = t.file_deleted(id, now, touched_at);
            let f = t.files[i];
            &&& u.files.len() == t.files.len()
            &&& f.id == id && f.deleted_at is None ==> gone is Some && u.files[i] == (
            ConversationFile { deleted_at: Some(now), ..f })
            &&& f.id != id ==> u.files[i] == f
            &&& gone is None ==> u == t
            &&& u.messages == t.messages
        }),
{
    lemma_first_where(t.files, crate::db::attachments::is_kept_file(id));
}

// ---------------------------------------------------------------------------
// Summaries
// ---------------------------------------------------------------------------

/// The next summary of a conversation has the number behind the largest so far,
/// or zero where there is none.
pub proof fn law_summaries_are_numbered(rows: Seq<SummaryRow<Seq<char>>>, id: Seq<char>)
    requires
        forall|i: int| 0 <= i < rows.len() ==> (#[trigger] rows[i]).segment_index < i64::MAX,
    ensures
        (forall|i: int| 0 <= i < rows.len() ==> (#[trigger] rows[i]).conversation_id != id)
            ==> next_index(rows, id) == 0,
        forall|i: int|
            0 <= i < rows.len() && (#[trigger] rows[i]).conversation_id == id
                ==> rows[i].segment_index < next_index(rows, id),
        (exists|i: int| 0 <= i < rows.len() && (#[trigger] rows[i]).conversation_id == id)
            ==> exists|i: int|
            0 <= i < rows.len() && (#[trigger] rows[i]).conversation_id == id
                && rows[i].segment_index + 1 == next_index(rows, id),
{
    lemma_last_index(rows, id);
}

proof fn lemma_last_index(rows: Seq<SummaryRow<Seq<char>>>, id: Seq<char>)
    ensures
        match last_index(rows, id) {
            Some(n) => {
                &&& forall|i: int|
                    0 <= i < rows.len() && (#[trigger] rows[i]).conversation_id == id
                        ==> rows[i].segment_index <= n
                &&& exists|i: int|
                    0 <= i < rows.len() && (#[trigger] rows[i]).conversation_id == id
                        && rows[i].segment_index == n
            },
            None => forall|i: int| 0 <= i < rows.len() ==> (#[trigger] rows[i]).conversation_id != id,
        },
    decreases rows.len(),
{
    if rows.len() > 0 {
        let front = rows.drop_last();
        lemma_last_index(front, id);
        assert forall|i: int| 0 <= i < front.len() implies front[i] == #[trigger] rows[i] by {}
        match last_index(front, id) {
            Some(n) => {
                let i = choose|i: int|
                    0 <= i < front.len() && (#[trigger] front[i]).conversation_id == id
                        && front[i].segment_index == n;
                assert(rows[i].conversation_id == id);
            },
            None => {},
        }
        assert(rows[rows.len() - 1] == rows.last());
    }
}

/// The summaries of a conversation come the newest first, all of them where no
/// more are there than were asked for, each as it is stored.
pub proof fn law_summaries_are_listed(
    t: Tables,
    id: Seq<char>,
    limit: int,
    s: SummaryRow<Seq<char>>,
    i: int,
    j: int,
)
    requires
        t.summaries.len() <= limit,
    ensures
        ({
            let all = t.summary_records(id, limit);
            &&& t.summaries.contains(s) && s.conversation_id == id ==> exists|k: int|
                0 <= k < all.len() && (#[trigger] all[k]).summary == s.summary
                    && all[k].segment_index == s.segment_index
            &&& 0 <= i <= j < all.len() ==> all[i].segment_index >= all[j].segment_index
            &&& 0 <= i < all.len() ==> all[i].conversation_id == id
            &&& t.summarised_until(id) is None <==> all.len() == 0
        }),
{
    let p = is_summary_of(id);
    let kept = t.summaries.filter(p);
    let le = newest_segment_first();
    assert(is_order(le));
    law_sorted(kept, le);
    lemma_filter_len(t.summaries, p);
    let rows = sorted(kept, le);
    let all = t.summary_records(id, limit);
    assert(all.len() == rows.len());
    if t.summaries.contains(s) && s.conversation_id == id {
        let a = lemma_filter_keeps(t.summaries, p, t.summaries.index_of(s));
        let k = lemma_sorted_has(kept, le, a);
        assert(all[k].summary == s.summary);
    }
    if 0 <= i < all.len() {
        let a = lemma_sorted_from(kept, le, i);
        let b = lemma_filter_member(t.summaries, p, a);
        assert(all[i] == record_of(rows[i]));
    }
    if 0 <= i <= j < all.len() {
        assert(le(rows[i], rows[j]));
        assert(all[j] == record_of(rows[j]));
    }
}

/// A conversation is listed with everything that is stored of it and with the
/// number of its messages.
pub proof fn law_listed_conversations(c: ConversationRow<Seq<char>>, n: i64)
    ensures
        ({
            let r = crate::db::conversations::listed(c, n);
            &&& r.id == c.id
            &&& r.title == c.title
            &&& r.created_at == c.created_at
            &&& r.updated_at == c.updated_at
            &&& r.is_pinned == c.is_pinned
            &&& r.message_count == n
            &&& r.model_override == c.model_override
            &&& r.provider_override == c.provider_override
            &&& r.base_url_override == c.base_url_override
            &&& r.temperature_override == c.temperature_override
            &&& r.max_tokens_override == c.max_tokens_override
            &&& r.max_context_tokens_override == c.max_context_tokens_override
            &&& r.max_recent_messages_override == c.max_recent_messages_override
            &&& r.max_memory_items_override == c.max_memory_items_override
            &&& r.system_prompt == c.system_prompt
            &&& r.thinking_override == c.thinking_override
            &&& r.reasoning_effort_override == c.reasoning_effort_override
        }),
{
}

/// A count is shown as it is.
pub proof fn law_counts_are_shown(t: Tables, query: Seq<char>, k: int)
    requires
        0 <= k < t.found_conversations(query, -1).len(),
        t.messages.len() < i64::MAX,
    ensures
        ({
            let c = t.found_conversations(query, -1)[k];
            c.message_count == t.message_count(c.id)
        }),
{
    let id = t.found_conversations(query, -1)[k].id;
    lemma_filter_len(t.messages, is_kept_in(id));
}

/// A summary is shown as it is stored.
pub proof fn law_shown_summaries(s: SummaryRow<Seq<char>>)
    ensures
        record_of(s).conversation_id == s.conversation_id,
        record_of(s).segment_index == s.segment_index,
        record_of(s).summary == s.summary,
        record_of(s).covered_start_message_id == s.covered_start_message_id,
        record_of(s).covered_end_message_id == s.covered_end_message_id,
        record_of(s).covered_start_created_at == s.covered_start_created_at,
        record_of(s).covered_end_created_at == s.covered_end_created_at,
        record_of(s).source_message_count == s.source_message_count,
        record_of(s).updated_at == s.updated_at,
{
}

/// Where summaries were made, the next begins behind what the newest of them
/// covers.
pub proof fn law_summaries_go_on(t: Tables, id: Seq<char>, s: SummaryRow<Seq<char>>)
    requires
        t.summaries.contains(s),
        s.conversation_id == id,
        forall|x: SummaryRow<Seq<char>>|
            t.summaries.contains(x) && x.conversation_id == id && x != s ==> (
            #[trigger] x.segment_index) < s.segment_index,
    ensures
        t.summarised_until(id) == Some(s.covered_end_created_at),
{
    let p = is_summary_of(id);
    let le = newest_segment_first();
    let kept = t.summaries.filter(p);
    lemma_left(t.summaries, p);
    lemma_same_rows(kept, le);
    assert(is_order(le));
    law_sorted(kept, le);
    let rows = sorted(kept, le);
    assert(kept.contains(s));
    assert(rows.contains(s));
    let k = rows.index_of(s);
    assert(le(rows[0], rows[k]));
    assert(rows.contains(rows[0]));
    assert(kept.contains(rows[0]));
    assert(t.summaries.contains(rows[0]) && rows[0].conversation_id == id);
    if rows[0] != s {
        assert(rows[0].segment_index < s.segment_index);
    }
}

/// The settings of a conversation are stored without white space around them.
pub proof fn law_settings_are_trimmed(o: ChatOverrides<Seq<char>>)
    ensures
        ({
            let r = crate::db::conversations::trimmed_overrides(o);
            &&& r.provider == trimmed(o.provider)
            &&& r.model == trimmed(o.model)
            &&& r.base_url == trimmed(o.base_url)
            &&& r.system_prompt == trimmed(o.system_prompt)
            &&& r.thinking == trimmed(o.thinking)
            &&& r.reasoning_effort == trimmed(o.reasoning_effort)
            &&& r.temperature == o.temperature
            &&& r.max_tokens == o.max_tokens
            &&& r.max_context_tokens == o.max_context_tokens
            &&& r.max_recent_messages == o.max_recent_messages
            &&& r.max_memory_items == o.max_memory_items
        }),
{
}

/// What is stored of the settings of a conversation stands under their names.
pub proof fn law_settings_are_kept_under_their_names(
    c: ConversationRow<Seq<char>>,
    o: ChatOverrides<Seq<char>>,
    now: Seq<char>,
)
    ensures
        crate::db::conversations::with_overrides(c, o, now) == (ConversationRow {
            provider_override: o.provider,
            model_override: o.model,
            base_url_override: o.base_url,
            temperature_override: o.temperature,
            max_tokens_override: o.max_tokens,
            max_context_tokens_override: o.max_context_tokens,
            max_recent_messages_override: o.max_recent_messages,
            max_memory_items_override: o.max_memory_items,
            system_prompt: o.system_prompt,
            thinking_override: o.thinking,
            reasoning_effort_override: o.reasoning_effort,
            updated_at: now,
            ..c
        }),
{
}

/// Adding a message, a conversation or an attachment that is refused changes
/// nothing; else what was to be is there, and what was added comes back.
pub proof fn law_refused_additions_change_nothing(
    id: Seq<char>,
    want: Result<Tables, DbError>,
    made: Result<(Tables, Conversation<Seq<char>>), DbError>,
    f: ConversationFile<Seq<char>>,
    before: Tables,
    after: Tables,
    m: Result<String, DbError>,
    c: Result<Conversation, DbError>,
    g: Result<ConversationFile, DbError>,
)
    ensures
        crate::db::messages::message_added(m, id, want, before, after) ==> match m {
            Ok(s) => s@ == id && want == Ok::<Tables, DbError>(after),
            Err(e) => after == before && want == Err::<Tables, DbError>(e),
        },
        crate::db::conversations::conversation_added(c, made, before, after) ==> match c {
            Ok(x) => made == Ok::<(Tables, Conversation<Seq<char>>), DbError>((after, x@)),
            Err(e) => after == before && made == Err::<
                (Tables, Conversation<Seq<char>>),
                DbError,
            >(e),
        },
        crate::db::attachments::file_added(g, f, want, before, after) ==> match g {
            Ok(x) => x@ == f && want == Ok::<Tables, DbError>(after),
            Err(e) => after == before && want == Err::<Tables, DbError>(e),
        },
{
}

/// A search with a limit lists the first of what it finds.
pub proof fn law_limited_searches(t: Tables, query: Seq<char>, limit: int)
    requires
        limit >= 0,
    ensures
        ({
            let all = t.found_conversations(query, -1);
            let some = t.found_conversations(query, limit);
            &&& some.len() == if all.len() <= limit {
                all.len() as int
            } else {
                limit
            }
            &&& forall|k: int| 0 <= k < some.len() ==> #[trigger] some[k] == all[k]
        }),
{
}

} // verus!
