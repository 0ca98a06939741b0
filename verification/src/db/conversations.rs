//! Conversations and the settings of each of them.
use vstd::prelude::*;
use crate::db::ordering::{above_all, has_room, number_above, numbered};
use crate::db::{
    file_elsewhere, is_conversation, is_other_conversation, message_elsewhere, summary_elsewhere,
    Database, DbError, Tables};
use crate::models::{
    ChatOverrides, Conversation, ConversationFile, ConversationRow, Message, SummaryRow,
};
use crate::pattern::{anywhere, like, matches_like};
use crate::sorting::{sorted, stable_sort, views};
use crate::stamps::{fresh_id, is_time_text, is_uuid, now_iso};
use crate::table::{
    change_rows, changed, count_rows, first_where, keep_rows, lemma_first_where, limit_rows,
    limited, select,
};
use crate::text::{
    before_nul, le_text, opt_str, text_before_nul, text_eq, text_le, trim, trimmed,
};

verus! {

// ---------------------------------------------------------------------------
// Listing
// ---------------------------------------------------------------------------

/// A number of rows, as far as it can be shown.
pub open spec fn shown_count(n: nat) -> i64 {
    if n < i64::MAX {
        n as i64
    } else {
        i64::MAX
    }
}

/// A conversation as it is listed, with the number of its messages.
pub open spec fn listed(c: ConversationRow<Seq<char>>, message_count: i64) -> Conversation<
    Seq<char>,
> {
    Conversation {
        id: c.id,
        title: c.title,
        created_at: c.created_at,
        updated_at: c.updated_at,
        is_pinned: c.is_pinned,
        message_count,
        model_override: c.model_override,
        provider_override: c.provider_override,
        base_url_override: c.base_url_override,
        temperature_override: c.temperature_override,
        max_tokens_override: c.max_tokens_override,
        max_context_tokens_override: c.max_context_tokens_override,
        max_recent_messages_override: c.max_recent_messages_override,
        max_memory_items_override: c.max_memory_items_override,
        system_prompt: c.system_prompt,
        thinking_override: c.thinking_override,
        reasoning_effort_override: c.reasoning_effort_override,
    }
}

/// Pinned conversations first, then by their numbers, then the last changed.
pub open spec fn listed_before(
    a: ConversationRow<Seq<char>>,
    b: ConversationRow<Seq<char>>,
) -> bool {
    if a.is_pinned != b.is_pinned {
        a.is_pinned
    } else if a.sort_index != b.sort_index {
        a.sort_index < b.sort_index
    } else {
        text_le(b.updated_at, a.updated_at)
    }
}

/// The conversation has what is searched in its title; of both, what SQLite
/// reads counts, which ends before the first character zero.
pub open spec fn is_found(c: ConversationRow<Seq<char>>, query: Seq<char>) -> bool {
    trimmed(query).len() == 0 || like(before_nul(anywhere(trimmed(query))), before_nul(c.title))
}

/// The conversations that a search finds.
pub open spec fn found_by(query: Seq<char>) -> spec_fn(ConversationRow<Seq<char>>) -> bool {
    |c: ConversationRow<Seq<char>>| is_found(c, query)
}

/// The order in which conversations are listed.
pub open spec fn list_order() -> spec_fn(
    ConversationRow<Seq<char>>,
    ConversationRow<Seq<char>>,
) -> bool {
    |a: ConversationRow<Seq<char>>, b: ConversationRow<Seq<char>>| listed_before(a, b)
}

impl Tables {
    /// The number of messages of a conversation that were not deleted.
    pub open spec fn message_count(self, conversation_id: Seq<char>) -> nat {
        self.messages.filter(
            crate::db::messages::is_kept_in(conversation_id),
        ).len()
    }

    /// The conversations that a search finds, in their order.
    pub open spec fn found_conversations(self, query: Seq<char>, limit: int) -> Seq<
        Conversation<Seq<char>>,
    > {
        let rows = limited(
            sorted(self.conversations.filter(found_by(query)), list_order()),
            limit,
        );
        Seq::new(
            rows.len(),
            |i: int| listed(rows[i], shown_count(self.message_count(rows[i].id))),
        )
    }
}

/// A conversation as it is listed, with the number of its messages.
fn to_listed(c: &ConversationRow, message_count: i64) -> (r: Conversation)
    ensures
        r@ == listed(c@, message_count),
{
    Conversation {
        id: c.id.clone(),
        title: c.title.clone(),
        created_at: c.created_at.clone(),
        updated_at: c.updated_at.clone(),
        is_pinned: c.is_pinned,
        message_count,
        model_override: c.model_override.clone(),
        provider_override: c.provider_override.clone(),
        base_url_override: c.base_url_override.clone(),
        temperature_override: c.temperature_override,
        max_tokens_override: c.max_tokens_override,
        max_context_tokens_override: c.max_context_tokens_override,
        max_recent_messages_override: c.max_recent_messages_override,
        max_memory_items_override: c.max_memory_items_override,
        system_prompt: c.system_prompt.clone(),
        thinking_override: c.thinking_override.clone(),
        reasoning_effort_override: c.reasoning_effort_override.clone(),
    }
}

/// Pinned conversations first, then by their numbers, then the last changed.
fn is_listed_before(a: &ConversationRow, b: &ConversationRow) -> (r: bool)
    ensures
        r == listed_before(a@, b@),
{
    if a.is_pinned != b.is_pinned {
        a.is_pinned
    } else if a.sort_index != b.sort_index {
        a.sort_index < b.sort_index
    } else {
        le_text(&b.updated_at, &a.updated_at)
    }
}

impl Database {
    /// The number of messages of a conversation that were not deleted.
    pub fn count_messages(&self, conversation_id: &str) -> (r: i64)
        ensures
            r == shown_count(self@.message_count(conversation_id@)),
    {
        let n: usize = count_rows(
            &self.messages,
            |m: &Message| -> (r: bool)
                ensures
                    r == (m@.conversation_id == conversation_id@ && m@.deleted_at is None)
                { text_eq(&m.conversation_id, conversation_id) && m.deleted_at.is_none() },
            Ghost(crate::db::messages::is_kept_in(conversation_id@)),
        );
        if (n as u64) < 0x7fff_ffff_ffff_ffff {
            n as i64
        } else {
            i64::MAX
        }
    }

    /// The conversations that a search finds in their titles, in their order;
    /// all of them where nothing is searched or `limit` is negative.
    pub fn list_conversations(&self, query: &str, limit: i64) -> (r: Vec<Conversation>)
        ensures
            views(r@) == self@.found_conversations(query@, limit as int),
    {
        let q = trim(query);
        let mut pattern = "%".to_owned();
        pattern.append(&q);
        pattern.append("%");
        proof {
            reveal_strlit("%");
            assert(pattern@ =~= anywhere(trimmed(query@)));
        }
        let pattern = text_before_nul(&pattern);
        let rows = select(
            &self.conversations,
            |c: &ConversationRow| -> (r: bool)
                ensures
                    r == is_found(c@, query@)
                { q.as_str().is_empty() || matches_like(&pattern, &text_before_nul(&c.title)) },
            Ghost(found_by(query@)),
        );
        let mut rows = stable_sort(
            rows,
            |a: &ConversationRow, b: &ConversationRow| -> (r: bool)
                ensures
                    r == listed_before(a@, b@)
                { is_listed_before(a, b) },
            Ghost(list_order()),
        );
        limit_rows(&mut rows, limit);
        let ghost all = self@.found_conversations(query@, limit as int);
        let mut out: Vec<Conversation> = Vec::new();
        for i in 0..rows.len()
            invariant
                all.len() == rows@.len(),
                forall|k: int|
                    0 <= k < all.len() ==> all[k] == listed(
                        (#[trigger] rows@[k])@,
                        shown_count(self@.message_count(rows@[k]@.id)),
                    ),
                views(out@) == all.take(i as int),
        {
            let x = to_listed(&rows[i], self.count_messages(&rows[i].id));
            let ghost next = views(out@).push(x@);
            out.push(x);
            assert(views(out@) =~= next);
            assert(all.take(i + 1) =~= next);
        }
        assert(all.take(all.len() as int) =~= all);
        out
    }
}

// ---------------------------------------------------------------------------
// Creating and deleting
// ---------------------------------------------------------------------------

/// The title of a new conversation.
pub open spec fn first_title(title: Option<Seq<char>>) -> Seq<char> {
    match title {
        Some(t) => if trimmed(t).len() == 0 {
            "New Chat"@
        } else {
            trimmed(t)
        },
        None => "New Chat"@,
    }
}

/// A new conversation.
pub open spec fn new_conversation(
    id: Seq<char>,
    title: Seq<char>,
    now: Seq<char>,
    sort_index: i64,
) -> ConversationRow<Seq<char>> {
    ConversationRow {
        id,
        title,
        created_at: now,
        updated_at: now,
        model_override: ""@,
        provider_override: ""@,
        base_url_override: ""@,
        temperature_override: None,
        max_tokens_override: None,
        max_context_tokens_override: None,
        max_recent_messages_override: None,
        max_memory_items_override: None,
        system_prompt: ""@,
        thinking_override: ""@,
        reasoning_effort_override: ""@,
        is_pinned: false,
        sort_index,
    }
}

impl Tables {
    /// What is stored after a conversation was created, and the conversation.
    pub open spec fn with_conversation(
        self,
        title: Option<Seq<char>>,
        id: Seq<char>,
        now: Seq<char>,
    ) -> Result<(Tables, Conversation<Seq<char>>), DbError> {
        if self.has_conversation(id) {
            Err(DbError::ConversationExists)
        } else {
            let c = new_conversation(
                id,
                first_title(title),
                now,
                above_all(self.conversations, false),
            );
            Ok(
                (
                    Tables { conversations: numbered(self.conversations.push(c)), ..self },
                    listed(c, 0),
                ),
            )
        }
    }

    /// What is stored after a conversation was deleted: with it go its
    /// messages, summaries and attachments, but no memories.
    pub open spec fn without_conversation(self, id: Seq<char>) -> Tables {
        if !self.has_conversation(id) {
            self
        } else {
            Tables {
                conversations: self.conversations.filter(
                    is_other_conversation(id),
                ),
                messages: self.messages.filter(
                    message_elsewhere(id),
                ),
                summaries: self.summaries.filter(
                    summary_elsewhere(id),
                ),
                files: self.files.filter(
                    file_elsewhere(id),
                ),
                ..self
            }
        }
    }
}

/// A conversation was created, or refused, as `want` says.
pub open spec fn conversation_added(
    r: Result<Conversation, DbError>,
    want: Result<(Tables, Conversation<Seq<char>>), DbError>,
    before: Tables,
    after: Tables,
) -> bool {
    match want {
        Ok((t, c)) => after == t && match r {
            Ok(x) => x@ == c,
            Err(_) => false,
        },
        Err(e) => r == Err::<Conversation, DbError>(e) && after == before,
    }
}

impl Database {
    /// Creates a conversation at `now` under the identifier `id`.
    pub fn create_conversation_at(&mut self, title: Option<&str>, id: &str, now: &str) -> (r: Result<
        Conversation,
        DbError,
    >)
        requires
            has_room(old(self)@.conversations),
        ensures
            conversation_added(
                r,
                old(self)@.with_conversation(opt_str(title), id@, now@),
                old(self)@,
                final(self)@,
            ),
    {
        let ghost before = self@;
        if self.find_conversation(id).is_some() {
            return Err(DbError::ConversationExists);
        }
        let given = match title {
            Some(t) => trim(t),
            None => "".to_owned(),
        };
        proof {
            reveal_strlit("");
        }
        let title = if given.as_str().is_empty() {
            "New Chat".to_owned()
        } else {
            given
        };
        let number: i64 = number_above(&self.conversations, false);
        let c = ConversationRow {
            id: id.to_owned(),
            title,
            created_at: now.to_owned(),
            updated_at: now.to_owned(),
            model_override: "".to_owned(),
            provider_override: "".to_owned(),
            base_url_override: "".to_owned(),
            temperature_override: None,
            max_tokens_override: None,
            max_context_tokens_override: None,
            max_recent_messages_override: None,
            max_memory_items_override: None,
            system_prompt: "".to_owned(),
            thinking_override: "".to_owned(),
            reasoning_effort_override: "".to_owned(),
            is_pinned: false,
            sort_index: number,
        };
        let r = to_listed(&c, 0);
        let ghost next = before.conversations.push(c@);
        self.conversations.push(c);
        assert(views(self.conversations@) =~= next);
        self.normalize_conversation_sort_order();
        Ok(r)
    }

    /// Creates a conversation.
    pub fn create_conversation(&mut self, title: Option<&str>) -> (r: Result<Conversation, DbError>)
        requires
            has_room(old(self)@.conversations),
        ensures
            exists|id: Seq<char>, now: Seq<char>|
                is_uuid(id) && is_time_text(now) && conversation_added(
                    r,
                    #[trigger] old(self)@.with_conversation(opt_str(title), id, now),
                    old(self)@,
                    final(self)@,
                ),
    {
        let id = fresh_id();
        let now = now_iso();
        self.create_conversation_at(title, &id, &now)
    }

    /// Deletes a conversation with its messages, summaries and attachments.
    pub fn delete_conversation(&mut self, conversation_id: &str)
        ensures
            final(self)@ == old(self)@.without_conversation(conversation_id@),
    {
        if self.find_conversation(conversation_id).is_none() {
            return;
        }
        keep_rows(
            &mut self.conversations,
            |c: &ConversationRow| -> (r: bool)
                ensures
                    r == (c@.id != conversation_id@)
                { !text_eq(&c.id, conversation_id) },
            Ghost(is_other_conversation(conversation_id@)),
        );
        keep_rows(
            &mut self.messages,
            |m: &Message| -> (r: bool)
                ensures
                    r == (m@.conversation_id != conversation_id@)
                { !text_eq(&m.conversation_id, conversation_id) },
            Ghost(message_elsewhere(conversation_id@)),
        );
        keep_rows(
            &mut self.summaries,
            |s: &SummaryRow| -> (r: bool)
                ensures
                    r == (s@.conversation_id != conversation_id@)
                { !text_eq(&s.conversation_id, conversation_id) },
            Ghost(summary_elsewhere(conversation_id@)),
        );
        keep_rows(
            &mut self.files,
            |f: &ConversationFile| -> (r: bool)
                ensures
                    r == (f@.conversation_id != conversation_id@)
                { !text_eq(&f.conversation_id, conversation_id) },
            Ghost(file_elsewhere(conversation_id@)),
        );
    }
}

// ---------------------------------------------------------------------------
// Titles and settings
// ---------------------------------------------------------------------------

/// No settings of its own.
pub open spec fn no_overrides() -> ChatOverrides<Seq<char>> {
    ChatOverrides {
        provider: ""@,
        model: ""@,
        base_url: ""@,
        temperature: None,
        max_tokens: None,
        max_context_tokens: None,
        max_recent_messages: None,
        max_memory_items: None,
        system_prompt: ""@,
        thinking: ""@,
        reasoning_effort: ""@,
    }
}

/// The settings of a conversation.
pub open spec fn overrides_of(c: ConversationRow<Seq<char>>) -> ChatOverrides<Seq<char>> {
    ChatOverrides {
        provider: c.provider_override,
        model: c.model_override,
        base_url: c.base_url_override,
        temperature: c.temperature_override,
        max_tokens: c.max_tokens_override,
        max_context_tokens: c.max_context_tokens_override,
        max_recent_messages: c.max_recent_messages_override,
        max_memory_items: c.max_memory_items_override,
        system_prompt: c.system_prompt,
        thinking: c.thinking_override,
        reasoning_effort: c.reasoning_effort_override,
    }
}

/// A conversation with other settings.
pub open spec fn with_overrides(
    c: ConversationRow<Seq<char>>,
    o: ChatOverrides<Seq<char>>,
    now: Seq<char>,
) -> ConversationRow<Seq<char>> {
    ConversationRow {
        provider_override: o.provider,
        model_override: o.model,
        base_url_override: o.base_url,
        temperature_override: o.temperature,
        max_tokens_override: o.max_tokens,
        max_context_tokens_override: o.max_context_tokens,
        max_recent_messages_override: o.max_recent_messages,
        max_memory_items_override: o.max_memory_items,
        system_prompt: o.system_prompt,
        thinking_override: o.thinking,
        reasoning_effort_override: o.reasoning_effort,
        updated_at: now,
        ..c
    }
}

/// Settings without the white space around their texts.
pub open spec fn trimmed_overrides(o: ChatOverrides<Seq<char>>) -> ChatOverrides<Seq<char>> {
    ChatOverrides {
        provider: trimmed(o.provider),
        model: trimmed(o.model),
        base_url: trimmed(o.base_url),
        system_prompt: trimmed(o.system_prompt),
        thinking: trimmed(o.thinking),
        reasoning_effort: trimmed(o.reasoning_effort),
        ..o
    }
}

/// A text, or the empty one where there is none.
pub open spec fn or_empty(s: Option<Seq<char>>) -> Seq<char> {
    match s {
        Some(t) => t,
        None => ""@,
    }
}

/// The title says nothing about the conversation.
pub open spec fn is_unnamed(title: Seq<char>) -> bool {
    title == "New Chat"@ || title == "新对话"@ || title == ""@
}

impl Tables {
    /// What is stored after a conversation was given a title.
    pub open spec fn titled(self, id: Seq<char>, title: Seq<char>, now: Seq<char>) -> Tables {
        Tables {
            conversations: changed(
                self.conversations,
                is_conversation(id),
                |c: ConversationRow<Seq<char>>| ConversationRow { title, updated_at: now, ..c },
            ),
            ..self
        }
    }

    /// What is stored after a conversation was given a title where it has none.
    pub open spec fn auto_titled(self, id: Seq<char>, title: Seq<char>, now: Seq<char>) -> Tables {
        match self.conversation(id) {
            Some(c) => if is_unnamed(c.title) {
                self.titled(id, title, now)
            } else {
                self
            },
            None => self,
        }
    }

    /// What is stored after a conversation was given a model.
    pub open spec fn remodelled(self, id: Seq<char>, model: Seq<char>, now: Seq<char>) -> Tables {
        Tables {
            conversations: changed(
                self.conversations,
                is_conversation(id),
                |c: ConversationRow<Seq<char>>|
                    ConversationRow { model_override: model, updated_at: now, ..c },
            ),
            ..self
        }
    }

    /// What is stored after a conversation was given settings.
    pub open spec fn overridden(
        self,
        id: Seq<char>,
        o: ChatOverrides<Seq<char>>,
        now: Seq<char>,
    ) -> Tables {
        Tables {
            conversations: changed(
                self.conversations,
                is_conversation(id),
                |c: ConversationRow<Seq<char>>| with_overrides(c, o, now),
            ),
            ..self
        }
    }

    /// The settings of a conversation; none where it does not exist.
    pub open spec fn overrides(self, id: Seq<char>) -> ChatOverrides<Seq<char>> {
        match self.conversation(id) {
            Some(c) => overrides_of(c),
            None => no_overrides(),
        }
    }
}

/// A text, or the empty one where there is none.
fn text_or_empty(s: Option<&str>) -> (r: &str)
    ensures
        r@ == or_empty(opt_str(s)),
{
    match s {
        Some(t) => t,
        None => "",
    }
}

/// A conversation with other settings.
fn set_overrides(c: &ConversationRow, o: &ChatOverrides, now: &str) -> (r: ConversationRow)
    ensures
        r@ == with_overrides(c@, o@, now@),
{
    let mut d = c.clone();
    d.provider_override = o.provider.clone();
    d.model_override = o.model.clone();
    d.base_url_override = o.base_url.clone();
    d.temperature_override = o.temperature;
    d.max_tokens_override = o.max_tokens;
    d.max_context_tokens_override = o.max_context_tokens;
    d.max_recent_messages_override = o.max_recent_messages;
    d.max_memory_items_override = o.max_memory_items;
    d.system_prompt = o.system_prompt.clone();
    d.thinking_override = o.thinking.clone();
    d.reasoning_effort_override = o.reasoning_effort.clone();
    d.updated_at = now.to_owned();
    d
}

impl Database {
    /// Gives a conversation a title at `now`.
    fn set_title(&mut self, conversation_id: &str, title: &str, now: &str)
        ensures
            final(self)@ == old(self)@.titled(conversation_id@, title@, now@),
    {
        change_rows(
            &mut self.conversations,
            |c: &ConversationRow| -> (r: bool)
                ensures
                    r == (c@.id == conversation_id@)
                { text_eq(&c.id, conversation_id) },
            |c: &ConversationRow| -> (r: ConversationRow)
                ensures
                    r@ == (ConversationRow { title: title@, updated_at: now@, ..c@ })
                {
                    let mut d = c.clone();
                    d.title = title.to_owned();
                    d.updated_at = now.to_owned();
                    d
                },
            Ghost(is_conversation(conversation_id@)),
            Ghost(
                |c: ConversationRow<Seq<char>>|
                    ConversationRow { title: title@, updated_at: now@, ..c },
            ),
        );
    }

    /// Renames a conversation at `now`.
    pub fn rename_conversation_at(&mut self, conversation_id: &str, title: &str, now: &str)
        ensures
            final(self)@ == old(self)@.titled(conversation_id@, trimmed(title@), now@),
    {
        let title = trim(title);
        self.set_title(conversation_id, &title, now)
    }

    /// Renames a conversation.
    pub fn rename_conversation(&mut self, conversation_id: &str, title: &str)
        ensures
            exists|now: Seq<char>|
                is_time_text(now) && final(self)@ == #[trigger] old(self)@.titled(
                    conversation_id@,
                    trimmed(title@),
                    now,
                ),
    {
        let now = now_iso();
        self.rename_conversation_at(conversation_id, title, &now)
    }

    /// Gives a conversation a title at `now` where it has none of its own.
    pub fn maybe_auto_title_at(&mut self, conversation_id: &str, title: &str, now: &str)
        ensures
            final(self)@ == old(self)@.auto_titled(conversation_id@, title@, now@),
    {
        if let Some(i) = self.find_conversation(conversation_id) {
            let t = &self.conversations[i].title;
            assert(self@.conversations[i as int].title == t@);
            let unnamed = text_eq(t, "New Chat") || text_eq(t, "新对话") || text_eq(t, "");
            if unnamed {
                self.set_title(conversation_id, title, now);
            }
        }
    }

    /// Gives a conversation a title where it has none of its own.
    pub fn maybe_auto_title(&mut self, conversation_id: &str, title: &str)
        ensures
            exists|now: Seq<char>|
                is_time_text(now) && final(self)@ == #[trigger] old(self)@.auto_titled(
                    conversation_id@,
                    title@,
                    now,
                ),
    {
        let now = now_iso();
        self.maybe_auto_title_at(conversation_id, title, &now)
    }

    /// Gives a conversation a model at `now`.
    pub fn set_conversation_model_at(&mut self, conversation_id: &str, model: &str, now: &str)
        ensures
            final(self)@ == old(self)@.remodelled(conversation_id@, trimmed(model@), now@),
    {
        let name = trim(model);
        change_rows(
            &mut self.conversations,
            |c: &ConversationRow| -> (r: bool)
                ensures
                    r == (c@.id == conversation_id@)
                { text_eq(&c.id, conversation_id) },
            |c: &ConversationRow| -> (r: ConversationRow)
                ensures
                    r@ == (ConversationRow { model_override: name@, updated_at: now@, ..c@ })
                {
                    let mut d = c.clone();
                    d.model_override = name.clone();
                    d.updated_at = now.to_owned();
                    d
                },
            Ghost(is_conversation(conversation_id@)),
            Ghost(
                |c: ConversationRow<Seq<char>>|
                    ConversationRow { model_override: name@, updated_at: now@, ..c },
            ),
        );
    }

    /// Gives a conversation a model.
    pub fn set_conversation_model(&mut self, conversation_id: &str, model: &str)
        ensures
            exists|now: Seq<char>|
                is_time_text(now) && final(self)@ == #[trigger] old(self)@.remodelled(
                    conversation_id@,
                    trimmed(model@),
                    now,
                ),
    {
        let now = now_iso();
        self.set_conversation_model_at(conversation_id, model, &now)
    }

    /// Gives a conversation settings at `now`.
    pub fn set_conversation_overrides_at(
        &mut self,
        conversation_id: &str,
        overrides: &ChatOverrides,
        now: &str,
    )
        ensures
            final(self)@ == old(self)@.overridden(
                conversation_id@,
                trimmed_overrides(overrides@),
                now@,
            ),
    {
        let o = ChatOverrides {
            provider: trim(&overrides.provider),
            model: trim(&overrides.model),
            base_url: trim(&overrides.base_url),
            temperature: overrides.temperature,
            max_tokens: overrides.max_tokens,
            max_context_tokens: overrides.max_context_tokens,
            max_recent_messages: overrides.max_recent_messages,
            max_memory_items: overrides.max_memory_items,
            system_prompt: trim(&overrides.system_prompt),
            thinking: trim(&overrides.thinking),
            reasoning_effort: trim(&overrides.reasoning_effort),
        };
        change_rows(
            &mut self.conversations,
            |c: &ConversationRow| -> (r: bool)
                ensures
                    r == (c@.id == conversation_id@)
                { text_eq(&c.id, conversation_id) },
            |c: &ConversationRow| -> (r: ConversationRow)
                ensures
                    r@ == with_overrides(c@, o@, now@)
                { set_overrides(c, &o, now) },
            Ghost(is_conversation(conversation_id@)),
            Ghost(|c: ConversationRow<Seq<char>>| with_overrides(c, o@, now@)),
        );
    }

    /// Gives a conversation settings.
    pub fn set_conversation_chat_settings(
        &mut self,
        conversation_id: &str,
        provider_override: &str,
        model_override: &str,
        base_url_override: &str,
        temperature_override: Option<u32>,
        max_tokens_override: Option<i64>,
        max_context_tokens_override: Option<i64>,
        max_recent_messages_override: Option<i64>,
        max_memory_items_override: Option<i64>,
        system_prompt: Option<&str>,
        thinking_override: Option<&str>,
        reasoning_effort_override: Option<&str>,
    )
        ensures
            exists|now: Seq<char>|
                is_time_text(now) && final(self)@ == #[trigger] old(self)@.overridden(
                    conversation_id@,
                    trimmed_overrides(
                        ChatOverrides {
                            provider: provider_override@,
                            model: model_override@,
                            base_url: base_url_override@,
                            temperature: temperature_override,
                            max_tokens: max_tokens_override,
                            max_context_tokens: max_context_tokens_override,
                            max_recent_messages: max_recent_messages_override,
                            max_memory_items: max_memory_items_override,
                            system_prompt: or_empty(opt_str(system_prompt)),
                            thinking: or_empty(opt_str(thinking_override)),
                            reasoning_effort: or_empty(opt_str(reasoning_effort_override)),
                        },
                    ),
                    now,
                ),
    {
        let now = now_iso();
        let o = ChatOverrides {
            provider: provider_override.to_owned(),
            model: model_override.to_owned(),
            base_url: base_url_override.to_owned(),
            temperature: temperature_override,
            max_tokens: max_tokens_override,
            max_context_tokens: max_context_tokens_override,
            max_recent_messages: max_recent_messages_override,
            max_memory_items: max_memory_items_override,
            system_prompt: text_or_empty(system_prompt).to_owned(),
            thinking: text_or_empty(thinking_override).to_owned(),
            reasoning_effort: text_or_empty(reasoning_effort_override).to_owned(),
        };
        self.set_conversation_overrides_at(conversation_id, &o, &now)
    }

    /// The settings of a conversation; none where it does not exist.
    pub fn get_conversation_chat_overrides(&self, conversation_id: &str) -> (r: ChatOverrides)
        ensures
            r@ == self@.overrides(conversation_id@),
    {
        match self.find_conversation(conversation_id) {
            Some(i) => {
                let c = &self.conversations[i];
                assert(self@.conversations[i as int] == c@);
                ChatOverrides {
                    provider: c.provider_override.clone(),
                    model: c.model_override.clone(),
                    base_url: c.base_url_override.clone(),
                    temperature: c.temperature_override,
                    max_tokens: c.max_tokens_override,
                    max_context_tokens: c.max_context_tokens_override,
                    max_recent_messages: c.max_recent_messages_override,
                    max_memory_items: c.max_memory_items_override,
                    system_prompt: c.system_prompt.clone(),
                    thinking: c.thinking_override.clone(),
                    reasoning_effort: c.reasoning_effort_override.clone(),
                }
            },
            None => ChatOverrides {
                provider: "".to_owned(),
                model: "".to_owned(),
                base_url: "".to_owned(),
                temperature: None,
                max_tokens: None,
                max_context_tokens: None,
                max_recent_messages: None,
                max_memory_items: None,
                system_prompt: "".to_owned(),
                thinking: "".to_owned(),
                reasoning_effort: "".to_owned(),
            },
        }
    }
}

// ---------------------------------------------------------------------------
// Laws
// ---------------------------------------------------------------------------

/// The settings that a conversation is given are its settings; those of other
/// conversations, the general settings, memories and summaries stay.
pub proof fn law_overrides_are_its_own(
    t: Tables,
    id: Seq<char>,
    o: ChatOverrides<Seq<char>>,
    now: Seq<char>,
    other: Seq<char>,
)
    requires
        other != id,
    ensures
        ({
            let u = t.overridden(id, o, now);
            &&& t.has_conversation(id) ==> u.overrides(id) == o
            &&& u.overrides(other) == t.overrides(other)
            &&& u.settings == t.settings
            &&& u.memories == t.memories
            &&& u.summaries == t.summaries
        }),
{
    let u = t.overridden(id, o, now);
    lemma_same_place(t, u, id);
    lemma_same_place(t, u, other);
}

/// Conversations with the same identifiers are found at the same places.
proof fn lemma_same_place(t: Tables, u: Tables, id: Seq<char>)
    requires
        t.conversations.len() == u.conversations.len(),
        forall|i: int|
            0 <= i < t.conversations.len() ==> (#[trigger] u.conversations[i]).id
                == t.conversations[i].id,
    ensures
        first_where(u.conversations, is_conversation(id)) == first_where(
            t.conversations,
            is_conversation(id),
        ),
        match first_where(t.conversations, is_conversation(id)) {
            Some(i) => 0 <= i < t.conversations.len() && t.conversations[i].id == id,
            None => true,
        },
{
    let p = is_conversation(id);
    lemma_first_where(t.conversations, p);
    lemma_first_where(u.conversations, p);
    match first_where(t.conversations, p) {
        Some(i) => {
            assert(p(u.conversations[i]));
            let j = first_where(u.conversations, p)->0;
            assert(p(t.conversations[j]));
            assert(i == j);
        },
        None => {
            match first_where(u.conversations, p) {
                Some(j) => {
                    assert(p(t.conversations[j]));
                },
                None => {},
            }
        },
    }
}

/// A conversation that was created is there with its title and without settings
/// of its own, is not pinned, and all others are still there.
pub proof fn law_created_conversation_is_there(
    t: Tables,
    title: Option<Seq<char>>,
    id: Seq<char>,
    now: Seq<char>,
    other: Seq<char>,
)
    requires
        other != id,
    ensures
        match t.with_conversation(title, id, now) {
            Ok((u, c)) => {
                &&& c.id == id
                &&& c.title == first_title(title)
                &&& u.conversation(id) is Some
                &&& u.conversation(id)->0.title == c.title
                &&& !u.conversation(id)->0.is_pinned
                &&& u.overrides(id) == no_overrides()
                &&& u.has_conversation(other) == t.has_conversation(other)
                &&& u.overrides(other) == t.overrides(other)
            },
            Err(e) => e == DbError::ConversationExists && t.has_conversation(id),
        },
{
    if !t.has_conversation(id) {
        let c = new_conversation(id, first_title(title), now, above_all(t.conversations, false));
        let rows = t.conversations.push(c);
        let mid = Tables { conversations: rows, ..t };
        let u = Tables { conversations: numbered(rows), ..t };
        lemma_same_place(mid, u, id);
        lemma_same_place(mid, u, other);
        assert(rows.drop_last() =~= t.conversations);
        lemma_first_where(t.conversations, is_conversation(id));
        lemma_first_where(t.conversations, is_conversation(other));
    }
}

} // verus!
