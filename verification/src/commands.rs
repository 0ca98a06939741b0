//! What the window asks of the program.
use vstd::prelude::*;
use crate::db::chat_settings::{chat_pairs, offered_models, storable};
use crate::db::conversations::trimmed_overrides;
use crate::db::messages::page_from_end;
use crate::db::ordering::{goes_down, has_room, repinned, shifted};
use crate::db::{error_text, Database, DbError, Tables};
use crate::json::{texts_json, texts_of_json};
use crate::models::{
    AppSettingsPayload, ChatOverrides, Conversation, ConversationFile, ConversationIdInput,
    CreateConversationInput, DeleteConversationFileInput, DeleteMessageInput, EditMessageInput,
    ListConversationFilesInput, ListInput, ListMemoriesInput, ListMessagesInput, Memory, Message,
    MoveConversationInput, RegenerateInput, RenameConversationInput, SaveApiKeyInput,
    SendMessageInput, SetConversationChatSettingsInput, SetConversationModelInput,
    SetConversationPinnedInput, UpdateMemoryScopeInput,
};
use crate::settings::{
    api_key_setting, cfg_key, clamp, clamped, effort_name, normalize_provider,
    normalize_reasoning_effort, normalize_theme_mode, normalize_thinking_override, provider_name,
    theme_name, thinking_name,
};
use crate::sorting::views;
use crate::state::AppState;
use crate::stamps::{fresh_id, is_time_text, is_uuid, now_iso};
use crate::text::{blank, is_blank, opt_text, text_eq, texts, trim, trimmed};

verus! {

// ---------------------------------------------------------------------------
// Settings
// ---------------------------------------------------------------------------

impl Tables {
    /// What is stored after the settings page was saved.
    pub open spec fn with_page(
        self,
        p: AppSettingsPayload,
        temperature: Seq<char>,
        now: Seq<char>,
    ) -> Tables {
        self.with_settings(
            chat_pairs(storable(p.chat@, provider_name(p.chat@.provider)), temperature),
            now,
        ).with_setting("models"@, texts_json(texts(p.models@)), now).with_setting(
            "last_conversation_id"@,
            p.last_conversation_id@,
            now,
        ).with_setting("theme_mode"@, theme_name(p.theme_mode@), now)
    }

    /// What is stored after a key was saved for a provider, which is used from
    /// now on.
    pub open spec fn with_api_key(
        self,
        provider: Seq<char>,
        key: Seq<char>,
        now: Seq<char>,
    ) -> Tables {
        self.with_setting(api_key_setting(provider), key, now).with_setting(
            "provider"@,
            provider,
            now,
        )
    }
}

/// All that the settings page shows, given the bits of the temperature.
pub fn get_settings(db: &Database, temperature: u32) -> (r: AppSettingsPayload)
    ensures
        r.chat@ == db@.chat_settings(
            provider_name(db@.setting_or("provider"@, "deepseek"@)),
            temperature,
        ),
        r.last_conversation_id@ == db@.setting_or("last_conversation_id"@, ""@),
        r.theme_mode@ == theme_name(db@.setting_or("theme_mode"@, "system"@)),
        texts(r.models@) == offered_models(texts_of_json(db@.setting_or("models"@, "[]"@))),
{
    AppSettingsPayload {
        chat: db.get_chat_settings(temperature),
        last_conversation_id: db.get_setting("last_conversation_id", ""),
        theme_mode: normalize_theme_mode(&db.get_setting("theme_mode", "system")).to_owned(),
        models: db.get_models(),
    }
}

/// Saves the settings page; `temperature` is the text of the temperature.
pub fn set_settings(db: &mut Database, payload: &AppSettingsPayload, temperature: &str)
    ensures
        exists|now: Seq<char>|
            is_time_text(now) && final(db)@ == #[trigger] old(db)@.with_page(
                *payload,
                temperature@,
                now,
            ),
{
    let now = now_iso();
    let provider = normalize_provider(&payload.chat.provider);
    db.store_chat_settings(&payload.chat, &provider, temperature, &now);
    db.set_models_at(&payload.models, &now);
    db.set_setting_at("last_conversation_id", &payload.last_conversation_id, &now);
    db.set_setting_at("theme_mode", normalize_theme_mode(&payload.theme_mode), &now);
    assert(db@ == old(db)@.with_page(*payload, temperature@, now@));
}

/// Saves a key for a provider, which is used from now on; a blank key is
/// refused.
pub fn save_api_key(db: &mut Database, input: &SaveApiKeyInput) -> (r: Result<(), String>)
    ensures
        if is_blank(input.api_key@) {
            &&& final(db)@ == old(db)@
            &&& match r {
                Err(e) => e@ == "api_key cannot be empty"@,
                Ok(_) => false,
            }
        } else {
            &&& r is Ok
            &&& exists|now: Seq<char>|
                is_time_text(now) && final(db)@ == #[trigger] old(db)@.with_api_key(
                    provider_name(input.provider@),
                    trimmed(input.api_key@),
                    now,
                )
        },
{
    let provider = normalize_provider(&input.provider);
    let key = trim(&input.api_key);
    if key.as_str().is_empty() {
        return Err("api_key cannot be empty".to_owned());
    }
    let now = now_iso();
    db.set_setting_at(&cfg_key(&provider), &key, &now);
    db.set_setting_at("provider", &provider, &now);
    assert(db@ == old(db)@.with_api_key(provider@, key@, now@));
    Ok(())
}

/// A saved key is the one that is used with that provider.
pub proof fn law_saved_key_is_used(
    t: Tables,
    provider: Seq<char>,
    key: Seq<char>,
    now: Seq<char>,
)
    requires
        !is_blank(key),
    ensures
        t.with_api_key(provider_name(provider), trimmed(key), now).api_key(provider) == Some(
            trimmed(key),
        ),
{
    let name = api_key_setting(provider_name(provider));
    let t1 = t.with_setting(name, trimmed(key), now);
    crate::db::chat_settings::law_setting_reads_back(t, name, trimmed(key), now);
    crate::db::chat_settings::law_setting_reads_back(t1, "provider"@, provider_name(provider), now);
    crate::text::law_trimmed_stays(key);
    reveal_strlit("api_key_");
    reveal_strlit("provider");
    assert(name[0] == 'a');
    assert("provider"@[0] == 'p');
    assert(t.with_api_key(provider_name(provider), trimmed(key), now).setting(name) == Some(
        trimmed(key),
    ));
}

/// Whether a key is saved for a provider.
pub fn has_api_key(db: &Database, provider: &str) -> (r: bool)
    ensures
        r == (db@.api_key(provider@) is Some),
{
    crate::chat::load_api_key(db, provider).is_some()
}

// ---------------------------------------------------------------------------
// Conversations
// ---------------------------------------------------------------------------

/// A number, or `default` where there is none, between two bounds.
pub open spec fn bounded(n: Option<i64>, default: int, lo: int, hi: int) -> int {
    clamped(
        match n {
            Some(v) => v as int,
            None => default,
        },
        lo,
        hi,
    )
}

/// A number, or `default` where there is none, between two bounds.
fn bound(n: Option<i64>, default: i64, lo: i64, hi: i64) -> (r: i64)
    requires
        lo <= hi,
    ensures
        r == bounded(n, default as int, lo as int, hi as int),
{
    clamp(
        match n {
            Some(v) => v,
            None => default,
        },
        lo,
        hi,
    )
}

/// What is searched, and how many conversations are listed.
pub open spec fn list_query(input: Option<ListInput>) -> (Seq<char>, int) {
    match input {
        Some(i) => (
            match i.query {
                Some(q) => q@,
                None => ""@,
            },
            bounded(i.limit, 300, 20, 1000),
        ),
        None => (""@, 300),
    }
}

/// The conversations that a search finds.
pub fn list_conversations(db: &Database, input: &Option<ListInput>) -> (r: Vec<Conversation>)
    ensures
        views(r@) == db@.found_conversations(list_query(*input).0, list_query(*input).1),
{
    match input {
        Some(i) => {
            let limit: i64 = bound(i.limit, 300, 20, 1000);
            match &i.query {
                Some(q) => db.list_conversations(q, limit),
                None => db.list_conversations("", limit),
            }
        },
        None => db.list_conversations("", 300),
    }
}

/// The title that was asked for.
pub open spec fn asked_title(input: Option<CreateConversationInput>) -> Option<Seq<char>> {
    match input {
        Some(i) => opt_text(i.title),
        None => None,
    }
}

/// A conversation was created and is the one that was used last, or was
/// refused.
pub open spec fn creation_done(
    r: Result<Conversation, String>,
    want: Result<(Tables, Conversation<Seq<char>>), DbError>,
    setting_now: Seq<char>,
    before: Tables,
    after: Tables,
) -> bool {
    match want {
        Ok((t, c)) => after == t.with_setting("last_conversation_id"@, c.id, setting_now)
            && match r {
            Ok(x) => x@ == c,
            Err(_) => false,
        },
        Err(e) => after == before && match r {
            Err(m) => m@ == error_text(e),
            Ok(_) => false,
        },
    }
}

/// Creates a conversation, which is then the one that was used last.
pub fn create_conversation(db: &mut Database, input: &Option<CreateConversationInput>) -> (r: Result<
    Conversation,
    String,
>)
    requires
        has_room(old(db)@.conversations),
    ensures
        exists|id: Seq<char>, now: Seq<char>, setting_now: Seq<char>|
            is_uuid(id) && is_time_text(now) && is_time_text(setting_now) && #[trigger] creation_done(
                r,
                old(db)@.with_conversation(asked_title(*input), id, now),
                setting_now,
                old(db)@,
                final(db)@,
            ),
{
    let title: Option<&str> = match input {
        Some(i) => match &i.title {
            Some(t) => Some(t.as_str()),
            None => None,
        },
        None => None,
    };
    let id = fresh_id();
    let now = now_iso();
    let setting_now = now_iso();
    let ghost want = db@.with_conversation(asked_title(*input), id@, now@);
    match db.create_conversation_at(title, &id, &now) {
        Ok(c) => {
            db.set_setting_at("last_conversation_id", &c.id, &setting_now);
            assert(creation_done(
                Ok::<Conversation, String>(c),
                want,
                setting_now@,
                old(db)@,
                db@,
            ));
            Ok(c)
        },
        Err(e) => {
            let m = e.message();
            assert(creation_done(
                Err::<Conversation, String>(m),
                want,
                setting_now@,
                old(db)@,
                db@,
            ));
            Err(m)
        },
    }
}

/// Renames a conversation.
pub fn rename_conversation(db: &mut Database, input: &RenameConversationInput)
    ensures
        exists|now: Seq<char>|
            is_time_text(now) && final(db)@ == #[trigger] old(db)@.titled(
                input.conversation_id@,
                trimmed(input.title@),
                now,
            ),
{
    db.rename_conversation(&input.conversation_id, &input.title)
}

/// The paths of attachments.
pub open spec fn paths_of(files: Seq<ConversationFile<Seq<char>>>) -> Seq<Seq<char>> {
    Seq::new(files.len(), |i: int| files[i].file_path)
}

/// Deletes a conversation; the paths of its attachments come back, whose files
/// are to be removed.
pub fn delete_conversation(db: &mut Database, input: &ConversationIdInput) -> (r: Vec<String>)
    ensures
        ({
            let id = trimmed(input.conversation_id@);
            if id.len() == 0 {
                final(db)@ == old(db)@ && texts(r@) == Seq::<Seq<char>>::empty()
            } else {
                final(db)@ == old(db)@.without_conversation(id) && texts(r@) == paths_of(
                    old(db)@.files_of(id, 4000),
                )
            }
        }),
{
    let id = trim(&input.conversation_id);
    let mut paths: Vec<String> = Vec::new();
    if id.as_str().is_empty() {
        assert(texts(paths@) =~= Seq::<Seq<char>>::empty());
        return paths;
    }
    let files = db.list_conversation_files_for_context(&id, 4000);
    let ghost all = paths_of(views(files@));
    db.delete_conversation(&id);
    for i in 0..files.len()
        invariant
            all == paths_of(views(files@)),
            texts(paths@) == all.take(i as int),
    {
        let p = files[i].file_path.clone();
        let ghost next = texts(paths@).push(p@);
        paths.push(p);
        assert(texts(paths@) =~= next);
        assert(all.take(i + 1) =~= next);
    }
    assert(all.take(all.len() as int) =~= all);
    paths
}

/// Pins or unpins a conversation.
pub fn set_conversation_pinned(db: &mut Database, input: &SetConversationPinnedInput)
    requires
        has_room(old(db)@.conversations),
    ensures
        exists|now: Seq<char>|
            is_time_text(now) && final(db)@ == (Tables {
                conversations: #[trigger] repinned(
                    old(db)@.conversations,
                    input.conversation_id@,
                    input.pinned,
                    now,
                ),
                ..old(db)@
            }),
{
    db.set_conversation_pinned(&input.conversation_id, input.pinned)
}

/// Moves a conversation down where the direction says so, else up.
pub fn move_conversation(db: &mut Database, input: &MoveConversationInput)
    ensures
        final(db)@ == (Tables {
            conversations: shifted(
                old(db)@.conversations,
                input.conversation_id@,
                goes_down(input.direction@),
            ),
            ..old(db)@
        }),
{
    db.move_conversation(&input.conversation_id, &input.direction)
}

/// Gives a conversation a model.
pub fn set_conversation_model(db: &mut Database, input: &SetConversationModelInput)
    ensures
        exists|now: Seq<char>|
            is_time_text(now) && final(db)@ == #[trigger] old(db)@.remodelled(
                input.conversation_id@,
                trimmed(input.model@),
                now,
            ),
{
    db.set_conversation_model(&input.conversation_id, &input.model)
}

/// A number between two bounds, where there is one.
pub open spec fn bounded_opt(n: Option<i64>, lo: int, hi: int) -> Option<i64> {
    match n {
        Some(v) => Some(clamped(v as int, lo, hi) as i64),
        None => None,
    }
}

/// A text, or the empty one.
pub open spec fn or_empty(s: Option<String>) -> Seq<char> {
    match s {
        Some(t) => t@,
        None => ""@,
    }
}

/// The settings of a conversation that were asked for, or why they are refused:
/// `provider` is the name of the provider, `thinking` and `effort` are what the
/// texts for them stand for.
pub open spec fn asked_overrides(
    input: SetConversationChatSettingsInput,
    provider: Seq<char>,
    thinking: Seq<char>,
    effort: Seq<char>,
) -> Result<ChatOverrides<Seq<char>>, Seq<char>> {
    if !is_blank(or_empty(input.thinking_override)) && thinking.len() == 0 {
        Err("Invalid thinking_override, use enabled/disabled or empty."@)
    } else if !is_blank(or_empty(input.reasoning_effort_override)) && effort.len() == 0 {
        Err("Invalid reasoning_effort_override, use high/max or empty."@)
    } else {
        Ok(
            ChatOverrides {
                provider: if is_blank(input.provider@) {
                    ""@
                } else {
                    provider
                },
                model: input.model@,
                base_url: input.base_url@,
                temperature: input.temperature_override,
                max_tokens: bounded_opt(input.max_tokens_override, 256, 262144),
                max_context_tokens: bounded_opt(input.max_context_tokens_override, 2048, 128000),
                max_recent_messages: bounded_opt(input.max_recent_messages_override, 4, 48),
                max_memory_items: bounded_opt(input.max_memory_items_override, 0, 16),
                system_prompt: or_empty(input.system_prompt),
                thinking,
                reasoning_effort: effort,
            },
        )
    }
}

/// A number between two bounds, where there is one.
fn bound_opt(n: Option<i64>, lo: i64, hi: i64) -> (r: Option<i64>)
    requires
        lo <= hi,
    ensures
        r == bounded_opt(n, lo as int, hi as int),
{
    match n {
        Some(v) => Some(clamp(v, lo, hi)),
        None => None,
    }
}

/// A text, or the empty one.
fn text_or_empty(s: &Option<String>) -> (r: String)
    ensures
        r@ == or_empty(*s),
{
    match s {
        Some(t) => t.clone(),
        None => "".to_owned(),
    }
}

/// The settings of a conversation that were asked for, or why they are refused.
pub fn check_overrides(
    input: &SetConversationChatSettingsInput,
    provider: String,
    thinking: String,
    effort: String,
) -> (r: Result<ChatOverrides, String>)
    ensures
        match asked_overrides(*input, provider@, thinking@, effort@) {
            Ok(o) => match r {
                Ok(x) => x@ == o,
                Err(_) => false,
            },
            Err(e) => match r {
                Err(m) => m@ == e,
                Ok(_) => false,
            },
        },
{
    if !blank(&text_or_empty(&input.thinking_override)) && thinking.as_str().is_empty() {
        return Err("Invalid thinking_override, use enabled/disabled or empty.".to_owned());
    }
    if !blank(&text_or_empty(&input.reasoning_effort_override)) && effort.as_str().is_empty() {
        return Err("Invalid reasoning_effort_override, use high/max or empty.".to_owned());
    }
    Ok(
        ChatOverrides {
            provider: if blank(&input.provider) {
                "".to_owned()
            } else {
                provider
            },
            model: input.model.clone(),
            base_url: input.base_url.clone(),
            temperature: input.temperature_override,
            max_tokens: bound_opt(input.max_tokens_override, 256, 262144),
            max_context_tokens: bound_opt(input.max_context_tokens_override, 2048, 128000),
            max_recent_messages: bound_opt(input.max_recent_messages_override, 4, 48),
            max_memory_items: bound_opt(input.max_memory_items_override, 0, 16),
            system_prompt: text_or_empty(&input.system_prompt),
            thinking,
            reasoning_effort: effort,
        },
    )
}

/// Gives a conversation settings, or refuses them. The bits of the temperature
/// are stored as they are.
pub fn set_conversation_chat_settings(
    db: &mut Database,
    input: &SetConversationChatSettingsInput,
) -> (r: Result<(), String>)
    ensures
        match asked_overrides(
            *input,
            provider_name(input.provider@),
            thinking_name(or_empty(input.thinking_override)),
            effort_name(or_empty(input.reasoning_effort_override)),
        ) {
            Ok(o) => r is Ok && exists|now: Seq<char>|
                is_time_text(now) && final(db)@ == #[trigger] old(db)@.overridden(
                    input.conversation_id@,
                    trimmed_overrides(o),
                    now,
                ),
            Err(e) => final(db)@ == old(db)@ && match r {
                Err(m) => m@ == e,
                Ok(_) => false,
            },
        },
{
    let provider = normalize_provider(&input.provider);
    let thinking = normalize_thinking_override(&text_or_empty(&input.thinking_override));
    let effort = normalize_reasoning_effort(&text_or_empty(&input.reasoning_effort_override));
    match check_overrides(input, provider, thinking, effort) {
        Ok(o) => {
            let now = now_iso();
            db.set_conversation_overrides_at(&input.conversation_id, &o, &now);
            Ok(())
        },
        Err(e) => Err(e),
    }
}

// ---------------------------------------------------------------------------
// Messages
// ---------------------------------------------------------------------------

/// How many messages are asked for, and how many of the newest are skipped.
pub open spec fn message_query(input: ListMessagesInput) -> (int, int) {
    (bounded(input.limit, 200, 20, 2000), bounded(input.offset, 0, 0, i64::MAX as int))
}

/// A page of the messages of a conversation.
pub fn list_messages(db: &Database, input: &ListMessagesInput) -> (r: Vec<Message>)
    ensures
        views(r@) == page_from_end(
            db@.timeline(input.conversation_id@),
            message_query(*input).0,
            message_query(*input).1,
        ),
{
    db.list_messages(
        &input.conversation_id,
        bound(input.limit, 200, 20, 2000),
        bound(input.offset, 0, 0, i64::MAX),
    )
}

/// A message that is to be answered.
#[derive(Debug)]
pub struct Question {
    pub conversation_id: String,
    pub content: String,
}

/// The user asks to stop the answer in a conversation; the result says whether
/// there was anything to stop.
pub fn stop_generation(state: &mut AppState, conversation_id: &str) -> (r: bool)
    ensures
        r == (old(state)@.flag(trimmed(conversation_id@)) is Some),
        final(state)@ == old(state)@.stopping(trimmed(conversation_id@)),
{
    state.stop_generation(&trim(conversation_id))
}

/// Why a message is not sent, if it is not.
pub open spec fn send_fault(conversation_id: Seq<char>, content: Seq<char>) -> Option<Seq<char>> {
    if is_blank(conversation_id) {
        Some("conversation_id cannot be empty"@)
    } else if is_blank(content) {
        Some("content cannot be empty"@)
    } else {
        None
    }
}

/// The message that is to be answered, or why it is not sent.
pub fn check_message(input: &SendMessageInput) -> (r: Result<Question, String>)
    ensures
        match send_fault(input.conversation_id@, input.content@) {
            Some(e) => match r {
                Err(m) => m@ == e,
                Ok(_) => false,
            },
            None => match r {
                Ok(q) => q.conversation_id@ == trimmed(input.conversation_id@) && q.content@
                    == trimmed(input.content@),
                Err(_) => false,
            },
        },
{
    let conversation_id = trim(&input.conversation_id);
    let content = trim(&input.content);
    if conversation_id.as_str().is_empty() {
        return Err("conversation_id cannot be empty".to_owned());
    }
    if content.as_str().is_empty() {
        return Err("content cannot be empty".to_owned());
    }
    Ok(Question { conversation_id, content })
}

impl Tables {
    /// What is stored after a message of the user was rewritten and those
    /// behind it were removed, with its conversation; or why that is refused.
    pub open spec fn edited(
        self,
        message_id: Seq<char>,
        content: Seq<char>,
        now: Seq<char>,
        touched_at: Seq<char>,
    ) -> Result<(Tables, Seq<char>), Seq<char>> {
        match self.message(message_id) {
            None => Err("message not found"@),
            Some(m) => if m.role != "user"@ {
                Err("only user message can be edited"@)
            } else {
                match self.with_content(message_id, content, now).truncated_after(
                    message_id,
                    touched_at,
                ) {
                    (t, Some(id)) => Ok((t, id)),
                    (t, None) => Err("conversation not found"@),
                }
            },
        }
    }

    /// What is stored after the messages behind one of the user were removed,
    /// with its conversation and its content; or why that is refused.
    pub open spec fn rewound(self, message_id: Seq<char>, touched_at: Seq<char>) -> Result<
        (Tables, Seq<char>, Seq<char>),
        Seq<char>,
    > {
        match self.message(message_id) {
            None => Err("user message not found"@),
            Some(m) => if m.role != "user"@ {
                Err("target is not user message"@)
            } else {
                match self.truncated_after(message_id, touched_at) {
                    (t, Some(id)) => Ok((t, id, m.content)),
                    (t, None) => Err("conversation not found"@),
                }
            },
        }
    }
}

/// A message was rewritten, or that was refused.
pub open spec fn edit_done(
    r: Result<Question, String>,
    want: Result<(Tables, Seq<char>), Seq<char>>,
    content: Seq<char>,
    before: Tables,
    after: Tables,
) -> bool {
    match want {
        Ok((t, id)) => after == t && match r {
            Ok(q) => q.conversation_id@ == id && q.content@ == content,
            Err(_) => false,
        },
        Err(e) => after == before && match r {
            Err(m) => m@ == e,
            Ok(_) => false,
        },
    }
}

/// Rewrites a message of the user and removes those behind it, or refuses to;
/// what is to be answered comes back.
pub fn prepare_edit(db: &mut Database, input: &EditMessageInput) -> (r: Result<Question, String>)
    ensures
        exists|now: Seq<char>, touched_at: Seq<char>|
            is_time_text(now) && is_time_text(touched_at) && edit_done(
                r,
                #[trigger] old(db)@.edited(
                    input.message_id@,
                    trimmed(input.new_content@),
                    now,
                    touched_at,
                ),
                trimmed(input.new_content@),
                old(db)@,
                final(db)@,
            ),
{
    let now = now_iso();
    let touched_at = now_iso();
    let content = trim(&input.new_content);
    let ghost before = db@;
    let ghost want = before.edited(input.message_id@, content@, now@, touched_at@);
    let row = match db.get_message(&input.message_id) {
        Some(m) => m,
        None => {
            return Err("message not found".to_owned());
        },
    };
    if !text_eq(&row.role, "user") {
        return Err("only user message can be edited".to_owned());
    }
    proof {
        law_content_keeps_message(before, input.message_id@, content@, now@);
    }
    db.update_message_content_at(&input.message_id, &content, &now);
    match db.truncate_messages_after_at(&input.message_id, &touched_at) {
        Some(conversation_id) => Ok(Question { conversation_id, content }),
        None => Err("conversation not found".to_owned()),
    }
}

/// A message whose content was replaced is there with the new content.
pub proof fn law_content_keeps_message(
    t: Tables,
    message_id: Seq<char>,
    content: Seq<char>,
    now: Seq<char>,
)
    ensures
        t.with_content(message_id, content, now).message(message_id) == match t.message(
            message_id,
        ) {
            Some(m) => Some(Message { content, updated_at: now, ..m }),
            None => None,
        },
{
    let after = t.with_content(message_id, content, now);
    let p = crate::db::messages::is_kept_message(message_id);
    crate::table::lemma_first_where(t.messages, p);
    crate::table::lemma_first_where(after.messages, p);
    match crate::table::first_where(t.messages, p) {
        Some(i) => {
            assert(p(after.messages[i]));
            let j = crate::table::first_where(after.messages, p)->0;
            assert(p(t.messages[j]));
            assert(i == j);
        },
        None => {
            match crate::table::first_where(after.messages, p) {
                Some(j) => {
                    assert(p(t.messages[j]));
                },
                None => {},
            }
        },
    }
}

/// The messages behind one of the user were removed, or that was refused.
pub open spec fn rewind_done(
    r: Result<Question, String>,
    want: Result<(Tables, Seq<char>, Seq<char>), Seq<char>>,
    before: Tables,
    after: Tables,
) -> bool {
    match want {
        Ok((t, id, content)) => after == t && match r {
            Ok(q) => q.conversation_id@ == id && q.content@ == content,
            Err(_) => false,
        },
        Err(e) => after == before && match r {
            Err(m) => m@ == e,
            Ok(_) => false,
        },
    }
}

/// Removes the messages behind one of the user, or refuses to; what is to be
/// answered comes back.
pub fn prepare_regenerate(db: &mut Database, input: &RegenerateInput) -> (r: Result<
    Question,
    String,
>)
    ensures
        exists|touched_at: Seq<char>|
            is_time_text(touched_at) && rewind_done(
                r,
                #[trigger] old(db)@.rewound(input.user_message_id@, touched_at),
                old(db)@,
                final(db)@,
            ),
{
    let touched_at = now_iso();
    let ghost want = db@.rewound(input.user_message_id@, touched_at@);
    let row = match db.get_message(&input.user_message_id) {
        Some(m) => m,
        None => {
            return Err("user message not found".to_owned());
        },
    };
    if !text_eq(&row.role, "user") {
        return Err("target is not user message".to_owned());
    }
    match db.truncate_messages_after_at(&input.user_message_id, &touched_at) {
        Some(conversation_id) => Ok(Question { conversation_id, content: row.content }),
        None => Err("conversation not found".to_owned()),
    }
}

/// How a message is deleted: it stays, marked, unless asked otherwise.
pub open spec fn deletion_of(input: DeleteMessageInput) -> (bool, Seq<char>) {
    (
        match input.soft {
            Some(s) => s,
            None => true,
        },
        match input.reason {
            Some(r) => r@,
            None => "user_request"@,
        },
    )
}

impl Tables {
    /// What is stored after a message was deleted: its conversation is the one
    /// that was used last.
    pub open spec fn message_dropped(
        self,
        message_id: Seq<char>,
        soft: bool,
        reason: Seq<char>,
        now: Seq<char>,
        touched_at: Seq<char>,
        setting_now: Seq<char>,
    ) -> Tables {
        match self.message_deleted(message_id, soft, reason, now, touched_at) {
            (t, Some(id)) => t.with_setting("last_conversation_id"@, id, setting_now),
            (t, None) => t,
        }
    }
}

/// Deletes a message; the result says whether there was one.
pub fn delete_message(db: &mut Database, input: &DeleteMessageInput) -> (r: bool)
    ensures
        exists|now: Seq<char>, touched_at: Seq<char>, setting_now: Seq<char>|
            is_time_text(now) && is_time_text(touched_at) && is_time_text(setting_now)
                && final(db)@ == #[trigger] old(db)@.message_dropped(
                input.message_id@,
                deletion_of(*input).0,
                deletion_of(*input).1,
                now,
                touched_at,
                setting_now,
            ),
        r == (old(db)@.any_message(input.message_id@) is Some),
{
    let now = now_iso();
    let touched_at = now_iso();
    let setting_now = now_iso();
    let soft = match input.soft {
        Some(s) => s,
        None => true,
    };
    let reason = match &input.reason {
        Some(t) => t.clone(),
        None => "user_request".to_owned(),
    };
    assert(deletion_of(*input) == (soft, reason@));
    let found = db.delete_message_at(&input.message_id, soft, &reason, &now, &touched_at);
    let r = found.is_some();
    if let Some(id) = found {
        db.set_setting_at("last_conversation_id", &id, &setting_now);
    }
    assert(db@ == old(db)@.message_dropped(
        input.message_id@,
        deletion_of(*input).0,
        deletion_of(*input).1,
        now@,
        touched_at@,
        setting_now@,
    ));
    r
}

// ---------------------------------------------------------------------------
// Attachments and memories
// ---------------------------------------------------------------------------

impl Tables {
    /// The attachments that are asked for, without their texts; none where no
    /// conversation is named.
    pub open spec fn file_page(self, input: ListConversationFilesInput) -> Seq<
        ConversationFile<Seq<char>>,
    > {
        if is_blank(input.conversation_id@) {
            Seq::empty()
        } else {
            self.file_list(trimmed(input.conversation_id@), bounded(input.limit, 200, 1, 2000))
        }
    }
}

/// The attachments of a conversation without their texts.
pub fn list_conversation_files(db: &Database, input: &ListConversationFilesInput) -> (r: Vec<
    ConversationFile,
>)
    ensures
        views(r@) == db@.file_page(*input),
{
    let id = trim(&input.conversation_id);
    if id.as_str().is_empty() {
        let r: Vec<ConversationFile> = Vec::new();
        assert(views(r@) =~= Seq::empty());
        return r;
    }
    db.list_conversation_files(&id, bound(input.limit, 200, 1, 2000))
}

/// Deletes an attachment; its path comes back, whose file is to be removed.
pub fn delete_conversation_file(db: &mut Database, input: &DeleteConversationFileInput) -> (r: Option<
    String,
>)
    ensures
        exists|now: Seq<char>, touched_at: Seq<char>|
            is_time_text(now) && is_time_text(touched_at) && ({
                let done = #[trigger] old(db)@.file_deleted(
                    trimmed(input.file_id@),
                    now,
                    touched_at,
                );
                final(db)@ == done.0 && opt_text(r) == match done.1 {
                    Some(f) => Some(f.file_path),
                    None => None,
                }
            }),
{
    let id = trim(&input.file_id);
    match db.soft_delete_conversation_file(&id) {
        Some(f) => Some(f.file_path),
        None => None,
    }
}

/// For which conversation, and how many, memories are listed.
pub open spec fn memory_query(input: Option<ListMemoriesInput>) -> (Seq<char>, int) {
    match input {
        Some(i) => (or_empty(i.conversation_id), bounded(i.limit, 300, 20, 2000)),
        None => (""@, 300),
    }
}

/// The memories on the page of a conversation.
pub fn list_memories(db: &Database, input: &Option<ListMemoriesInput>) -> (r: Vec<Memory>)
    ensures
        views(r@) == db@.memory_page(memory_query(*input).0, memory_query(*input).1),
{
    match input {
        Some(i) => {
            let limit: i64 = bound(i.limit, 300, 20, 2000);
            let id = text_or_empty(&i.conversation_id);
            db.list_memories_for_conversation(&id, limit)
        },
        None => db.list_memories_for_conversation("", 300),
    }
}

/// A change was made, or refused with what is said of it.
pub open spec fn change_done(
    r: Result<(), String>,
    want: Result<Tables, DbError>,
    before: Tables,
    after: Tables,
) -> bool {
    match want {
        Ok(t) => r is Ok && after == t,
        Err(e) => after == before && match r {
            Err(m) => m@ == error_text(e),
            Ok(_) => false,
        },
    }
}

/// Makes a memory one for all conversations, or one for a single conversation.
pub fn update_memory_scope(db: &mut Database, input: &UpdateMemoryScopeInput) -> (r: Result<
    (),
    String,
>)
    ensures
        exists|now: Seq<char>|
            is_time_text(now) && change_done(
                r,
                #[trigger] old(db)@.rescoped(
                    input.memory_id@,
                    input.make_global,
                    opt_text(input.conversation_id),
                    now,
                ),
                old(db)@,
                final(db)@,
            ),
{
    let conversation_id: Option<&str> = match &input.conversation_id {
        Some(id) => Some(id.as_str()),
        None => None,
    };
    match db.set_memory_scope(&input.memory_id, input.make_global, conversation_id) {
        Ok(_) => Ok(()),
        Err(e) => Err(e.message()),
    }
}

} // verus!
