//! What an answer leaves behind, and what the window asks for.
use vstd::prelude::*;
use crate::api::reply::Completion;
use crate::commands::{
    asked_overrides, bounded, creation_done, deletion_of, edit_done, list_query, memory_query,
    paths_of, rewind_done, send_fault,
};
use crate::db::chat_settings::law_setting_reads_back;
use crate::db::messages::{is_kept_message, new_message};
use crate::db::store_laws::law_new_messages_come_last;
use crate::db::{DbError, Tables};
use crate::json::texts_json;
use crate::models::{
    ApiRuntimeConfig, AppSettingsPayload, Conversation, ConversationFile, DeleteMessageInput,
    ListInput, ListMemoriesInput, Message, SetConversationChatSettingsInput,
};
use crate::settings::theme_name;
use crate::stamps::Draw;
use crate::state::{
    final_content, is_finish, is_start, law_cleared, law_registered, title_of, Finished, Started,
    StateView,
};
use crate::table::{first_where, lemma_first_where};
use crate::text::{replaced, starts, texts, trimmed};

verus! {

// ---------------------------------------------------------------------------
// Answers
// ---------------------------------------------------------------------------

/// A title is the beginning of what was said, without white space around it and
/// with blanks in place of line ends; without anything said it is the first one.
pub proof fn law_titles_come_from_what_is_said(s: Seq<char>)
    ensures
        title_of(s).len() <= 36,
        trimmed(s).len() == 0 ==> title_of(s) == "New Chat"@,
        trimmed(s).len() > 0 ==> {
            let n = if trimmed(s).len() <= 36 {
                trimmed(s).len() as int
            } else {
                36
            };
            &&& title_of(s).len() == n
            &&& forall|i: int|
                0 <= i < n ==> #[trigger] title_of(s)[i] == if trimmed(s)[i] == '\n' {
                    ' '
                } else {
                    trimmed(s)[i]
                }
        },
{
    reveal_strlit("New Chat");
    lemma_line_ends(trimmed(s));
}

proof fn lemma_line_ends(s: Seq<char>)
    ensures
        replaced(s, '\n', " "@).len() == s.len(),
        forall|i: int|
            0 <= i < s.len() ==> #[trigger] replaced(s, '\n', " "@)[i] == if s[i] == '\n' {
                ' '
            } else {
                s[i]
            },
    decreases s.len(),
{
    reveal_strlit(" ");
    if s.len() > 0 {
        lemma_line_ends(s.drop_last());
        let r = replaced(s, '\n', " "@);
        let front = replaced(s.drop_last(), '\n', " "@);
        assert forall|i: int| 0 <= i < s.len() implies #[trigger] r[i] == if s[i] == '\n' {
            ' '
        } else {
            s[i]
        } by {
            if i < s.len() - 1 {
                assert(r[i] == front[i]);
                assert(s.drop_last()[i] == s[i]);
            }
        }
    }
}

/// An answer is stored as it came; where the user asked to stop, it is marked,
/// and nothing that was written is lost.
pub proof fn law_answers_are_kept(content: Seq<char>)
    ensures
        final_content(content, false) == content,
        trimmed(content).len() > 0 ==> final_content(content, true) == content
            + "\n\n[Generation stopped]"@,
        trimmed(content).len() == 0 ==> final_content(content, true) == "Generation stopped."@,
{
}

/// The state in which what the user says is to be answered.
pub open spec fn asked(
    before: StateView,
    conversation_id: Seq<char>,
    user_text: Seq<char>,
    draw: Draw,
    touched_at: Seq<char>,
) -> Result<(Tables, Seq<char>), DbError> {
    before.with_question(conversation_id, user_text, true, None, draw, touched_at)
}

/// When an answer began, it is being written in that conversation and in no
/// other more than before; what the user says is the newest message there, in
/// the role of the user, and the model is asked as the settings say.
pub proof fn law_beginning_an_answer(
    r: Result<Started, String>,
    before: StateView,
    after: StateView,
    conversation_id: Seq<char>,
    user_text: Seq<char>,
    draw: Draw,
    touched_at: Seq<char>,
    temperature: u32,
)
    requires
        is_start(
            r,
            before,
            after,
            conversation_id,
            user_text,
            asked(before, conversation_id, user_text, draw, touched_at),
            before.may_start(conversation_id, temperature),
        ),
        forall|i: int|
            0 <= i < before.tables.messages.len() ==> crate::text::text_le(
                (#[trigger] before.tables.messages[i]).created_at,
                draw.now,
            ),
    ensures
        before.flag(conversation_id) is Some ==> r is Err && after == before,
        match r {
            Ok(s) => {
                &&& before.flag(conversation_id) is None
                &&& after.flag(conversation_id) == Some(false)
                &&& forall|k: Seq<char>|
                    k != conversation_id ==> #[trigger] after.flag(k) == before.flag(k)
                &&& s.user_message_id@ == draw.id
                &&& before.may_start(conversation_id, temperature) == Ok::<
                    ApiRuntimeConfig<Seq<char>>,
                    Seq<char>,
                >(s.config@)
                &&& match asked(before, conversation_id, user_text, draw, touched_at) {
                    Ok((t, _)) => {
                        let said = t.timeline(conversation_id).last();
                        &&& said.role == "user"@
                        &&& said.content == user_text
                        &&& said.id == draw.id
                        &&& said.deleted_at is None
                        &&& t.timeline(conversation_id).drop_last() == before.tables.timeline(
                            conversation_id,
                        )
                    },
                    Err(_) => false,
                }
            },
            Err(_) => forall|k: Seq<char>| #[trigger] after.flag(k) == before.flag(k),
        },
{
    law_registered(before, conversation_id);
    law_cleared(before.registered(conversation_id), conversation_id);
    let m = new_message(
        draw.id,
        conversation_id,
        "user"@,
        user_text,
        ""@,
        crate::models::TokenUsage::zero(),
        draw.now,
    );
    law_new_messages_come_last(before.tables, m, touched_at);
    match asked(before, conversation_id, user_text, draw, touched_at) {
        Ok((t, _)) => {
            let all = before.tables.timeline(conversation_id);
            assert(all.push(m).drop_last() =~= all);
            assert(t.timeline(conversation_id) == all.push(m));
        },
        Err(_) => {},
    }
    assert forall|k: Seq<char>| k != conversation_id implies #[trigger] before.registered(
        conversation_id,
    ).flag(k) == before.flag(k) by {}
    match r {
        Ok(s) => {
            assert(after.flag(conversation_id) == before.registered(conversation_id).flag(
                conversation_id,
            ));
            assert forall|k: Seq<char>| k != conversation_id implies #[trigger] after.flag(k)
                == before.flag(k) by {
                assert(after.flag(k) == before.registered(conversation_id).flag(k));
            }
        },
        Err(_) => {
            if before.may_start(conversation_id, temperature) is Ok {
                assert(before.flag(conversation_id) is None);
                assert forall|k: Seq<char>| #[trigger] after.flag(k) == before.flag(k) by {
                    if k != conversation_id {
                        assert(before.registered(conversation_id).flag(k) == before.flag(k));
                        assert(before.registered(conversation_id).cleared(conversation_id).flag(k)
                            == before.registered(conversation_id).flag(k));
                    }
                }
            }
        },
    }
}

/// When an answer ended, it is the newest message of the conversation, in the
/// role of the assistant, with its reasoning and its count; none is being
/// written there any more, and the conversation is the one that was used last.
pub proof fn law_ending_an_answer(
    r: Result<Finished, String>,
    before: StateView,
    after: StateView,
    conversation_id: Seq<char>,
    user_text: Seq<char>,
    reply: Completion<Seq<char>>,
    draw: Draw,
    touched_at: Seq<char>,
)
    requires
        is_finish(
            r,
            before,
            after,
            conversation_id,
            user_text,
            final_content(reply.content, before.stops(conversation_id)),
            draw.id,
            before.with_answer(conversation_id, reply, draw, touched_at),
        ),
        forall|i: int|
            0 <= i < before.tables.messages.len() ==> crate::text::text_le(
                (#[trigger] before.tables.messages[i]).created_at,
                draw.now,
            ),
    ensures
        match r {
            Ok(f) => {
                &&& f.message_id@ == draw.id
                &&& !before.stops(conversation_id) ==> f.content@ == reply.content
                &&& before.stops(conversation_id) && trimmed(reply.content).len() > 0 ==> starts(
                    f.content@,
                    reply.content,
                )
                &&& after.flag(conversation_id) is None
                &&& after.tables.setting("last_conversation_id"@) == Some(conversation_id)
                &&& match before.with_answer(conversation_id, reply, draw, touched_at) {
                    Ok(t) => {
                        let said = t.timeline(conversation_id).last();
                        &&& said.role == "assistant"@
                        &&& said.content == f.content@
                        &&& said.reasoning_content == reply.reasoning
                        &&& said.token_usage == reply.usage
                        &&& t.timeline(conversation_id).drop_last() == before.tables.timeline(
                            conversation_id,
                        )
                    },
                    Err(_) => false,
                }
            },
            Err(_) => after == before,
        },
{
    law_cleared(before, conversation_id);
    let content = final_content(reply.content, before.stops(conversation_id));
    let m = new_message(
        draw.id,
        conversation_id,
        "assistant"@,
        content,
        reply.reasoning,
        reply.usage,
        draw.now,
    );
    law_new_messages_come_last(before.tables, m, touched_at);
    match before.with_answer(conversation_id, reply, draw, touched_at) {
        Ok(t) => {
            let all = before.tables.timeline(conversation_id);
            assert(all.push(m).drop_last() =~= all);
            assert(after.flag(conversation_id) == before.cleared(conversation_id).flag(
                conversation_id,
            ));
            let (title_now, draws, setting_now) = choose|
                title_now: Seq<char>,
                draws: Seq<Draw>,
                setting_now: Seq<char>,
            |
                after.tables == #[trigger] t.followed(
                    conversation_id,
                    user_text,
                    title_now,
                    draws,
                    setting_now,
                );
            let titled = t.auto_titled(conversation_id, title_of(user_text), title_now);
            let pending = titled.unsummarised(conversation_id);
            let s = titled.summarised(
                conversation_id,
                pending,
                crate::summary::segments_of(pending),
                draws,
            ).tables;
            law_setting_reads_back(s, "last_conversation_id"@, conversation_id, setting_now);
            assert((reply.content + "\n\n[Generation stopped]"@).take(reply.content.len() as int)
                =~= reply.content);
        },
        Err(_) => {},
    }
}

// ---------------------------------------------------------------------------
// Editing
// ---------------------------------------------------------------------------

/// Only what the user said can be edited. The message says afterwards what it
/// was changed to, nothing that was written later is left in the conversation,
/// and that is asked again.
pub proof fn law_editing_asks_again(
    t: Tables,
    id: Seq<char>,
    content: Seq<char>,
    now: Seq<char>,
    touched_at: Seq<char>,
)
    ensures
        t.message(id) is None ==> t.edited(id, content, now, touched_at) == Err::<
            (Tables, Seq<char>),
            Seq<char>,
        >("message not found"@),
        t.message(id) matches Some(m) ==> {
            &&& m.role != "user"@ ==> t.edited(id, content, now, touched_at) == Err::<
                (Tables, Seq<char>),
                Seq<char>,
            >("only user message can be edited"@)
            &&& m.role == "user"@ ==> match t.edited(id, content, now, touched_at) {
                Ok((u, owner)) => {
                    &&& owner == m.conversation_id
                    &&& u.messages.contains(
                        (Message { content, updated_at: now, ..m }),
                    )
                    &&& forall|x: Message<Seq<char>>| #[trigger]
                        u.messages.contains(x) && x.conversation_id == m.conversation_id
                            ==> crate::text::text_le(x.created_at, m.created_at)
                    &&& u.memories == t.memories
                },
                Err(_) => false,
            }
        },
{
    match t.message(id) {
        Some(m) => {
            if m.role == "user"@ {
                let p = is_kept_message(id);
                let v = t.with_content(id, content, now);
                lemma_first_where(t.messages, p);
                lemma_first_where(v.messages, p);
                let i = first_where(t.messages, p)->0;
                assert(p(v.messages[i]));
                let j = first_where(v.messages, p)->0;
                assert(p(t.messages[j]));
                assert(i == j);
                let n = v.messages[i];
                assert(n == Message { content, updated_at: now, ..m });
                assert(v.message(id) == Some(n));
                let rule = crate::db::messages::is_not_after(n.conversation_id, n.created_at);
                crate::db::store_laws::lemma_left(v.messages, rule);
                crate::text::law_text_order_total(n.created_at, n.created_at);
                assert(v.messages.contains(n));
                assert(rule(n));
                let u = v.truncated_after(id, touched_at).0;
                assert(u.messages == v.messages.filter(rule));
            }
        },
        None => {},
    }
}

/// Only what the user said is answered anew: what was written later is gone, the
/// message stays as it is, and its content is what is asked again.
pub proof fn law_answering_anew(t: Tables, id: Seq<char>, touched_at: Seq<char>)
    ensures
        t.message(id) is None ==> t.rewound(id, touched_at) == Err::<
            (Tables, Seq<char>, Seq<char>),
            Seq<char>,
        >("user message not found"@),
        t.message(id) matches Some(m) ==> {
            &&& m.role != "user"@ ==> t.rewound(id, touched_at) == Err::<
                (Tables, Seq<char>, Seq<char>),
                Seq<char>,
            >("target is not user message"@)
            &&& m.role == "user"@ ==> match t.rewound(id, touched_at) {
                Ok((u, owner, content)) => {
                    &&& owner == m.conversation_id
                    &&& content == m.content
                    &&& u.messages.contains(m)
                    &&& forall|x: Message<Seq<char>>| #[trigger]
                        u.messages.contains(x) <==> t.messages.contains(x) && (x.conversation_id
                            != m.conversation_id || crate::text::text_le(
                            x.created_at,
                            m.created_at,
                        ))
                },
                Err(_) => false,
            }
        },
{
    match t.message(id) {
        Some(m) => {
            lemma_first_where(t.messages, is_kept_message(id));
            let i = first_where(t.messages, is_kept_message(id))->0;
            assert(t.messages[i] == m);
            crate::db::store_laws::lemma_left(
                t.messages,
                crate::db::messages::is_not_after(m.conversation_id, m.created_at),
            );
            crate::text::law_text_order_total(m.created_at, m.created_at);
        },
        None => {},
    }
}

/// Where a message was edited or is answered anew, the question is that of its
/// conversation and says what it says now; where that is refused, nothing is
/// changed.
pub proof fn law_questions_are_asked_again(
    r: Result<crate::commands::Question, String>,
    t: Tables,
    after: Tables,
    id: Seq<char>,
    content: Seq<char>,
    now: Seq<char>,
    touched_at: Seq<char>,
)
    ensures
        edit_done(r, t.edited(id, content, now, touched_at), content, t, after) ==> match r {
            Ok(q) => q.content@ == content && (t.message(id) matches Some(m)
                && q.conversation_id@ == m.conversation_id),
            Err(_) => after == t,
        },
        rewind_done(r, t.rewound(id, touched_at), t, after) ==> match r {
            Ok(q) => t.message(id) matches Some(m) && q.content@ == m.content
                && q.conversation_id@ == m.conversation_id,
            Err(_) => after == t,
        },
{
    law_editing_asks_again(t, id, content, now, touched_at);
    law_answering_anew(t, id, touched_at);
}

// ---------------------------------------------------------------------------
// The window
// ---------------------------------------------------------------------------

/// A message is sent where it says something in a conversation that is named.
pub proof fn law_empty_messages_are_not_sent(conversation_id: Seq<char>, content: Seq<char>)
    ensures
        send_fault(conversation_id, content) is None <==> trimmed(conversation_id).len() > 0
            && trimmed(content).len() > 0,
        trimmed(conversation_id).len() == 0 ==> send_fault(conversation_id, content) == Some(
            "conversation_id cannot be empty"@,
        ),
        trimmed(conversation_id).len() > 0 && trimmed(content).len() == 0 ==> send_fault(
            conversation_id,
            content,
        ) == Some("content cannot be empty"@),
{
}

/// A message is deleted softly, and because the user asked for it, unless the
/// window says otherwise.
pub proof fn law_deletions_are_soft(input: DeleteMessageInput)
    ensures
        input.soft is None ==> deletion_of(input).0,
        input.soft matches Some(s) ==> deletion_of(input).0 == s,
        input.reason is None ==> deletion_of(input).1 == "user_request"@,
        input.reason matches Some(r) ==> deletion_of(input).1 == r@,
{
}

/// A list has as many entries as were asked for, within bounds, or a usual
/// number.
pub proof fn law_lists_are_bounded(list: ListInput, memories: ListMemoriesInput)
    ensures
        ({
            let (query, limit) = list_query(Some(list));
            &&& list.query matches Some(q) ==> query == q@
            &&& list.query is None ==> query.len() == 0
            &&& 20 <= limit <= 1000
            &&& list.limit matches Some(n) ==> (20 <= n <= 1000 ==> limit == n)
            &&& list.limit is None ==> limit == 300
        }),
        list_query(None).0.len() == 0,
        list_query(None).1 == 300,
        ({
            let (conversation, limit) = memory_query(Some(memories));
            &&& memories.conversation_id matches Some(id) ==> conversation == id@
            &&& memories.conversation_id is None ==> conversation.len() == 0
            &&& 20 <= limit <= 2000
            &&& memories.limit matches Some(n) ==> (20 <= n <= 2000 ==> limit == n)
            &&& memories.limit is None ==> limit == 300
        }),
        memory_query(None).0.len() == 0,
        memory_query(None).1 == 300,
{
    reveal_strlit("");
}

/// A number that was asked for is used within its bounds.
pub proof fn law_asked_numbers(n: i64, default: int, lo: int, hi: int)
    requires
        lo <= default <= hi,
    ensures
        bounded(None, default, lo, hi) == default,
        lo <= n <= hi ==> bounded(Some(n), default, lo, hi) == n,
        n < lo ==> bounded(Some(n), default, lo, hi) == lo,
        n > hi ==> bounded(Some(n), default, lo, hi) == hi,
{
}

/// The settings that a conversation is given are those that were entered, the
/// numbers within their bounds; words for thinking and effort that are not known
/// are refused.
pub proof fn law_entered_settings(
    input: SetConversationChatSettingsInput,
    provider: Seq<char>,
    thinking: Seq<char>,
    effort: Seq<char>,
)
    requires
        input.thinking_override is None,
        input.reasoning_effort_override is None,
    ensures
        match asked_overrides(input, provider, thinking, effort) {
            Ok(o) => {
                &&& o.model == input.model@
                &&& o.base_url == input.base_url@
                &&& trimmed(input.provider@).len() > 0 ==> o.provider == provider
                &&& trimmed(input.provider@).len() == 0 ==> o.provider.len() == 0
                &&& o.temperature == input.temperature_override
                &&& input.system_prompt matches Some(s) ==> o.system_prompt == s@
                &&& input.system_prompt is None ==> o.system_prompt.len() == 0
                &&& input.max_tokens_override is None ==> o.max_tokens is None
                &&& input.max_tokens_override matches Some(n) ==> (256 <= n <= 262144
                    ==> o.max_tokens == Some(n))
                &&& input.max_context_tokens_override matches Some(n) ==> (2048 <= n <= 128000
                    ==> o.max_context_tokens == Some(n))
                &&& input.max_recent_messages_override matches Some(n) ==> (4 <= n <= 48
                    ==> o.max_recent_messages == Some(n))
                &&& input.max_memory_items_override matches Some(n) ==> (0 <= n <= 16
                    ==> o.max_memory_items == Some(n))
            },
            Err(_) => false,
        },
{
    reveal_strlit("");
    let none = Seq::<char>::empty();
    crate::text::law_trimmed_of(none, none, none);
    assert(none + none + none =~= none);
    assert(""@ =~= none);
}

/// Words for thinking and effort that are not known are refused.
pub proof fn law_unknown_words_are_refused(
    input: SetConversationChatSettingsInput,
    provider: Seq<char>,
    word: Seq<char>,
    effort: Seq<char>,
)
    requires
        input.thinking_override is Some,
        input.thinking_override->0@ == word,
        trimmed(word).len() > 0,
    ensures
        asked_overrides(input, provider, Seq::empty(), effort) is Err,
{
}

/// What the page of settings says is what is read there again.
pub proof fn law_the_page_reads_back(
    t: Tables,
    p: AppSettingsPayload,
    temperature: Seq<char>,
    now: Seq<char>,
)
    ensures
        ({
            let u = t.with_page(p, temperature, now);
            &&& u.setting("last_conversation_id"@) == Some(p.last_conversation_id@)
            &&& u.setting("theme_mode"@) == Some(theme_name(p.theme_mode@))
            &&& u.setting("models"@) == Some(texts_json(texts(p.models@)))
        }),
{
    reveal_strlit("last_conversation_id");
    reveal_strlit("theme_mode");
    reveal_strlit("models");
    assert("last_conversation_id"@[0] == 'l' && "theme_mode"@[0] == 't' && "models"@[0] == 'm');
    let a = t.with_settings(
        crate::db::chat_settings::chat_pairs(
            crate::db::chat_settings::storable(
                p.chat@,
                crate::settings::provider_name(p.chat@.provider),
            ),
            temperature,
        ),
        now,
    );
    let m = texts_json(texts(p.models@));
    let b = a.with_setting("models"@, m, now);
    let c = b.with_setting("last_conversation_id"@, p.last_conversation_id@, now);
    law_setting_reads_back(a, "models"@, m, now);
    law_setting_reads_back(b, "last_conversation_id"@, p.last_conversation_id@, now);
    law_setting_reads_back(c, "theme_mode"@, theme_name(p.theme_mode@), now);
    let u = c.with_setting("theme_mode"@, theme_name(p.theme_mode@), now);
    assert(u.setting("last_conversation_id"@) == c.setting("last_conversation_id"@));
    assert(u.setting("models"@) == c.setting("models"@));
    assert(c.setting("models"@) == b.setting("models"@));
}

/// A key that is saved belongs to its provider, which is used from then on.
pub proof fn law_saved_keys_choose_the_provider(
    t: Tables,
    provider: Seq<char>,
    key: Seq<char>,
    now: Seq<char>,
)
    ensures
        t.with_api_key(provider, key, now).setting("provider"@) == Some(provider),
{
    law_setting_reads_back(
        t.with_setting(crate::settings::api_key_setting(provider), key, now),
        "provider"@,
        provider,
        now,
    );
}

/// A conversation that is created is the one that was used last.
pub proof fn law_created_conversations_are_used_last(
    r: Result<Conversation, String>,
    t: Tables,
    title: Option<Seq<char>>,
    id: Seq<char>,
    now: Seq<char>,
    setting_now: Seq<char>,
    after: Tables,
)
    requires
        creation_done(r, t.with_conversation(title, id, now), setting_now, t, after),
    ensures
        match r {
            Ok(c) => c@.id == id && after.setting("last_conversation_id"@) == Some(id)
                && after.has_conversation(id),
            Err(_) => after == t,
        },
{
    match t.with_conversation(title, id, now) {
        Ok((u, c)) => {
            law_setting_reads_back(u, "last_conversation_id"@, c.id, setting_now);
            assert(id.push('x').len() != id.len());
            crate::db::conversations::law_created_conversation_is_there(
                t,
                title,
                id,
                now,
                id.push('x'),
            );
            let v = u.with_setting("last_conversation_id"@, c.id, setting_now);
            assert(v.conversations == u.conversations);
        },
        Err(_) => {},
    }
}

/// A conversation in which a message was deleted is the one that was used last.
pub proof fn law_deleting_uses_the_conversation(
    t: Tables,
    id: Seq<char>,
    soft: bool,
    reason: Seq<char>,
    now: Seq<char>,
    touched_at: Seq<char>,
    setting_now: Seq<char>,
)
    ensures
        ({
            let u = t.message_dropped(id, soft, reason, now, touched_at, setting_now);
            &&& t.any_message(id) is None ==> u == t
            &&& t.any_message(id) matches Some(m) ==> u.setting("last_conversation_id"@) == Some(
                m.conversation_id,
            )
        }),
{
    match t.any_message(id) {
        Some(m) => {
            law_setting_reads_back(
                t.message_deleted(id, soft, reason, now, touched_at).0,
                "last_conversation_id"@,
                m.conversation_id,
                setting_now,
            );
        },
        None => {},
    }
}

/// The files of a deleted conversation are named one by one.
pub proof fn law_paths_are_named(files: Seq<ConversationFile<Seq<char>>>, i: int)
    requires
        0 <= i < files.len(),
    ensures
        paths_of(files).len() == files.len(),
        paths_of(files)[i] == files[i].file_path,
{
}

// ---------------------------------------------------------------------------
// What follows
// ---------------------------------------------------------------------------

/// Summarising touches the summaries alone.
proof fn lemma_summarised(
    t: Tables,
    id: Seq<char>,
    pending: Seq<Message<Seq<char>>>,
    segments: Seq<crate::summary::Segment<Seq<char>>>,
    draws: Seq<Draw>,
)
    ensures
        t.summarised(id, pending, segments, draws).tables == (Tables {
            summaries: t.summarised(id, pending, segments, draws).tables.summaries,
            ..t
        }),
    decreases segments.len(),
{
    if segments.len() > 0 {
        lemma_summarised(t, id, pending, segments.drop_last(), draws);
    }
}

/// Behind an answer a conversation without a title of its own gets one from what
/// the user said; one that has a title keeps it. Messages and memories stay as
/// they are.
pub proof fn law_answered_conversations_have_titles(
    t: Tables,
    id: Seq<char>,
    user_text: Seq<char>,
    title_now: Seq<char>,
    draws: Seq<Draw>,
    setting_now: Seq<char>,
)
    ensures
        ({
            let u = t.followed(id, user_text, title_now, draws, setting_now);
            &&& t.conversation(id) matches Some(c) ==> (u.conversation(id) matches Some(d) && {
                &&& c.title == "New Chat"@ || c.title == "新对话"@ || c.title.len() == 0 ==> d.title
                    == title_of(user_text)
                &&& !(c.title == "New Chat"@ || c.title == "新对话"@ || c.title.len() == 0)
                    ==> d == c
            })
            &&& u.messages == t.messages
            &&& u.memories == t.memories
            &&& u.setting("last_conversation_id"@) == Some(id)
        }),
{
    let titled = t.auto_titled(id, title_of(user_text), title_now);
    let pending = titled.unsummarised(id);
    let segments = crate::summary::segments_of(pending);
    lemma_summarised(titled, id, pending, segments, draws);
    let s = titled.summarised(id, pending, segments, draws).tables;
    law_setting_reads_back(s, "last_conversation_id"@, id, setting_now);
    let u = t.followed(id, user_text, title_now, draws, setting_now);
    assert(u.conversations == titled.conversations);
    let p = crate::db::is_conversation(id);
    lemma_first_where(t.conversations, p);
    lemma_first_where(titled.conversations, p);
    reveal_strlit("");
    match t.conversation(id) {
        Some(c) => {
            if c.title.len() == 0 {
                assert(c.title =~= ""@);
            }
            let i = first_where(t.conversations, p)->0;
            assert(p(titled.conversations[i]));
            let j = first_where(titled.conversations, p)->0;
            assert(p(t.conversations[j]));
            assert(i == j);
        },
        None => {},
    }
}

/// What the user says is taken into the profiles, and what it asks to remember
/// is remembered, with the conversation and the message it came from; memories
/// fade only where something was to be remembered.
pub proof fn law_learning_from_what_is_said(
    t: Tables,
    user_text: Seq<char>,
    id: Seq<char>,
    message_id: Seq<char>,
    after: Tables,
    fade: bool,
)
    requires
        t.may_learn(user_text, id, message_id, after, fade),
    ensures
        ({
            let list = crate::memory::candidates_of(
                trimmed(user_text),
                crate::text::lowercase(trimmed(user_text)),
            );
            &&& list.len() == 0 ==> !fade && after.memories == t.memories
            &&& after.messages == t.messages
            &&& after.conversations == t.conversations
            &&& after.settings == t.settings
        }),
{
    let list = crate::memory::candidates_of(
        trimmed(user_text),
        crate::text::lowercase(trimmed(user_text)),
    );
    let (user_now, style_now, draws) = choose|
        user_now: Seq<char>,
        style_now: Seq<char>,
        draws: Seq<Draw>,
    |
        after == #[trigger] t.learned(user_text, id, message_id, user_now, style_now, draws) && fade
            == t.fades_after(user_text, id, message_id, user_now, style_now, draws);
    let taught = t.taught(user_text, user_now, style_now);
    lemma_remembered(taught, list, Some(id), Some(message_id), draws);
}

proof fn lemma_remembered(
    t: Tables,
    list: Seq<crate::memory::Candidate<Seq<char>>>,
    id: Option<Seq<char>>,
    source: Option<Seq<char>>,
    draws: Seq<Draw>,
)
    ensures
        t.all_remembered(list, id, source, draws).tables == (Tables {
            memories: t.all_remembered(list, id, source, draws).tables.memories,
            ..t
        }),
        list.len() == 0 ==> t.all_remembered(list, id, source, draws).tables == t,
    decreases list.len(),
{
    if list.len() > 0 {
        lemma_remembered(t, list.drop_last(), id, source, draws);
    }
}

/// A change from the window that is refused changes nothing, and it is said why.
pub proof fn law_refused_wishes_change_nothing(
    r: Result<(), String>,
    want: Result<Tables, DbError>,
    before: Tables,
    after: Tables,
    f: ConversationFile<Seq<char>>,
    u: Result<ConversationFile, String>,
)
    ensures
        crate::commands::change_done(r, want, before, after) ==> match r {
            Ok(_) => want == Ok::<Tables, DbError>(after),
            Err(m) => after == before && (want matches Err(e) && m@ == crate::db::error_text(e)),
        },
        crate::uploads::upload_stored(u, f, want, before, after) ==> match u {
            Ok(x) => want == Ok::<Tables, DbError>(after) && x@.id == f.id && x@.file_name
                == f.file_name && x@.summary == f.summary && x@.content_text.len() == 0,
            Err(m) => after == before && (want matches Err(e) && m@ == crate::db::error_text(e)),
        },
{
    reveal_strlit("");
}

/// An import says how many conversations and messages it took over; one that is
/// no list takes over nothing.
pub proof fn law_imports_say_what_they_did(
    r: Result<crate::models::ImportResult, crate::importer::ImportError>,
    root: crate::json::JsonTree,
    before: Tables,
    after: Tables,
)
    requires
        crate::importer::import_done(r, root, before, after),
    ensures
        !(root is Array) ==> after == before && r is Err,
        root is Array ==> after.memories == before.memories,
        match r {
            Ok(n) => root is Array && n.imported_conversations + n.imported_messages
                == crate::importer::steps_of(root->Array_0).len(),
            Err(_) => true,
        },
{
    if root is Array {
        let chats = root->Array_0;
        let draws = choose|draws: Seq<Draw>|
            crate::importer::is_import_outcome(
                r,
                #[trigger] crate::importer::after_steps(
                    before,
                    crate::importer::steps_of(chats),
                    draws,
                ),
            ) && after == crate::importer::after_steps(
                before,
                crate::importer::steps_of(chats),
                draws,
            ).tables;
        crate::importer::law_import_counts_every_step(
            before,
            crate::importer::steps_of(chats),
            draws,
        );
    }
}

/// A message that is already stored is answered without storing anything.
pub proof fn law_stored_messages_are_answered(
    s: StateView,
    id: Seq<char>,
    user_text: Seq<char>,
    source: Seq<char>,
    draw: Draw,
    touched_at: Seq<char>,
)
    ensures
        s.with_question(id, user_text, false, Some(source), draw, touched_at) == Ok::<
            (Tables, Seq<char>),
            DbError,
        >((s.tables, source)),
{
}

/// What the user says reaches both profiles, and what is remembered of it is
/// remembered with its source.
pub proof fn law_learning_reaches_everything(
    t: Tables,
    user_text: Seq<char>,
    id: Seq<char>,
    message_id: Seq<char>,
    user_now: Seq<char>,
    style_now: Seq<char>,
    draws: Seq<Draw>,
)
    ensures
        ({
            let u = t.learned(user_text, id, message_id, user_now, style_now, draws);
            let taught = t.taught(user_text, user_now, style_now);
            let list = crate::memory::candidates_of(
                trimmed(user_text),
                crate::text::lowercase(trimmed(user_text)),
            );
            &&& u.user_profile == taught.user_profile
            &&& u.style_profile == taught.style_profile
            &&& list.len() == 1 ==> (taught.remembered(
                crate::learning::note_for(list[0], Some(id), Some(message_id)),
                draws[0].id,
                draws[0].now,
            ) matches Ok(v) ==> u == v)
        }),
{
    let taught = t.taught(user_text, user_now, style_now);
    let list = crate::memory::candidates_of(
        trimmed(user_text),
        crate::text::lowercase(trimmed(user_text)),
    );
    lemma_remembered(taught, list, Some(id), Some(message_id), draws);
    if list.len() == 1 {
        reveal_with_fuel(Tables::all_remembered, 2);
        assert(list.drop_last() =~= Seq::empty());
    }
}

/// A direction leads down where it says so, in any case and without the white
/// space around it; any other leads up.
pub proof fn law_directions(direction: Seq<char>)
    ensures
        crate::text::lowercase(trimmed(direction)) == "down"@ <==> crate::db::ordering::goes_down(
            direction,
        ),
{
}

/// A page has 200 messages unless another number is asked for, between 20 and
/// 2000; none are skipped unless that is asked for.
pub proof fn law_pages_of_messages(input: crate::models::ListMessagesInput)
    ensures
        ({
            let (limit, offset) = crate::commands::message_query(input);
            &&& input.limit is None ==> limit == 200
            &&& input.limit matches Some(n) ==> (20 <= n <= 2000 ==> limit == n)
            &&& 20 <= limit <= 2000
            &&& input.offset is None ==> offset == 0
            &&& input.offset matches Some(n) ==> (n >= 0 ==> offset == n) && (n < 0 ==> offset
                == 0)
        }),
{
}

/// The attachments of a conversation are shown where one is named: 200 of them
/// unless another number is asked for.
pub proof fn law_pages_of_attachments(
    t: Tables,
    input: crate::models::ListConversationFilesInput,
)
    ensures
        trimmed(input.conversation_id@).len() == 0 ==> t.file_page(input).len() == 0,
        trimmed(input.conversation_id@).len() > 0 ==> {
            &&& input.limit is None ==> t.file_page(input) == t.file_list(
                trimmed(input.conversation_id@),
                200,
            )
            &&& input.limit matches Some(n) ==> (1 <= n <= 2000 ==> t.file_page(input)
                == t.file_list(trimmed(input.conversation_id@), n as int))
        },
{
}

} // verus!
