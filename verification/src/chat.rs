//! Which settings hold in a conversation, and what a model is told there.
use vstd::prelude::*;
use crate::budget::{assemble_context, context};
use crate::context::{
    describe_files, describe_memories, describe_profiles, describe_summaries, file_heading,
    file_lines, make_pinned, make_section, memory_lines, pinned_sections, profile_lines, section,
    summary_lines,
};
use crate::db::messages::page_from_end;
use crate::db::{Database, Tables};
use crate::files::{looks_like_raw_txt_request, wants_raw_text};
use crate::models::{ApiMessage, ApiRuntimeConfig, ChatOverrides, ChatSettings, Memory, MemoryRow};
use crate::settings::{
    base_url_of, cfg_key, clamp, clamped, effort_name, needs_api_key, normalize_provider,
    normalize_reasoning_effort, normalize_thinking_override, provider_name,
    provider_requires_api_key, resolve_base_url, should_replay_reasoning_content,
    supports_deepseek_thinking_params, takes_thinking, thinking_name,
};
use crate::sorting::views;
use crate::text::{
    blank, is_blank, lowercase, opt_text, text_eq, texts, trim, trimmed, uppercase,
};

verus! {

// ---------------------------------------------------------------------------
// Which settings hold
// ---------------------------------------------------------------------------

/// The setting of the conversation, else the general one.
pub open spec fn number_or(own: Option<i64>, general: i64) -> i64 {
    match own {
        Some(n) => n,
        None => general,
    }
}

/// The text of the conversation, else the general one where it is blank.
pub open spec fn text_or(own: Seq<char>, general: Seq<char>) -> Seq<char> {
    if is_blank(own) {
        general
    } else {
        own
    }
}

/// How many tokens a model is told in a conversation.
pub open spec fn context_limit(o: ChatOverrides<Seq<char>>, s: ChatSettings<Seq<char>>) -> int {
    clamped(number_or(o.max_context_tokens, s.max_context_tokens) as int, 2048, 128000)
}

/// How many messages a model is told in a conversation.
pub open spec fn recent_limit(o: ChatOverrides<Seq<char>>, s: ChatSettings<Seq<char>>) -> int {
    clamped(number_or(o.max_recent_messages, s.max_recent_messages) as int, 4, 48)
}

/// How many memories a model is told in a conversation.
pub open spec fn memory_limit(o: ChatOverrides<Seq<char>>, s: ChatSettings<Seq<char>>) -> int {
    clamped(number_or(o.max_memory_items, s.max_memory_items) as int, 0, 16)
}

/// How many tokens a model may answer in a conversation.
pub open spec fn answer_limit(o: ChatOverrides<Seq<char>>, s: ChatSettings<Seq<char>>) -> int {
    clamped(number_or(o.max_tokens, s.max_tokens) as int, 256, 262144)
}

/// The provider of a conversation.
pub open spec fn effective_provider(
    o: ChatOverrides<Seq<char>>,
    s: ChatSettings<Seq<char>>,
) -> Seq<char> {
    provider_name(text_or(o.provider, s.provider))
}

/// The model of a conversation.
pub open spec fn effective_model(
    o: ChatOverrides<Seq<char>>,
    s: ChatSettings<Seq<char>>,
) -> Seq<char> {
    trimmed(text_or(o.model, s.model))
}

/// A number of the conversation, else the general one.
fn own_number(own: Option<i64>, general: i64) -> (r: i64)
    ensures
        r == number_or(own, general),
{
    match own {
        Some(n) => n,
        None => general,
    }
}

/// A text of the conversation, else the general one where it is blank.
pub fn own_text<'a>(own: &'a str, general: &'a str) -> (r: &'a str)
    ensures
        r@ == text_or(own@, general@),
{
    if blank(own) {
        general
    } else {
        own
    }
}

/// The bits of the temperature of a conversation, else those of the general
/// one.
pub fn own_temperature(own: Option<u32>, general: u32) -> (r: u32)
    ensures
        r == match own {
            Some(t) => t,
            None => general,
        },
{
    match own {
        Some(t) => t,
        None => general,
    }
}

// ---------------------------------------------------------------------------
// What a model is told
// ---------------------------------------------------------------------------

impl Tables {
    /// The memories that come to mind with what the user says.
    pub open spec fn called_to_mind(
        self,
        conversation_id: Seq<char>,
        user_text: Seq<char>,
        limit: int,
    ) -> Seq<MemoryRow<Seq<char>>> {
        if limit <= 0 {
            Seq::empty()
        } else {
            self.recalled(user_text, Some(conversation_id), limit)
        }
    }

    /// The sections that are told where they fit: profiles, attachments,
    /// memories and summaries.
    pub open spec fn optional_sections(
        self,
        conversation_id: Seq<char>,
        user_text: Seq<char>,
        memories: Seq<Memory<Seq<char>>>,
        raws: Seq<Seq<char>>,
        wants_raw: bool,
        now: Seq<char>,
    ) -> Seq<Seq<char>> {
        seq![
            section("[User Profile]"@, profile_lines(self.user(now), self.style(now))),
            section(
                file_heading(wants_raw),
                file_lines(self.files_of(conversation_id, 8), raws, wants_raw),
            ),
            section("[Relevant Long-Term Memories]"@, memory_lines(memories)),
            section("[Older Summaries]"@, summary_lines(self.summary_records(conversation_id, 8))),
        ]
    }

    /// All that a model is told in a conversation when the user says something:
    /// with the general settings `s`, the texts `raws` of the attached files,
    /// where `wants_raw` says whether they are asked for, at `now`.
    pub open spec fn told(
        self,
        conversation_id: Seq<char>,
        user_text: Seq<char>,
        s: ChatSettings<Seq<char>>,
        raws: Seq<Seq<char>>,
        wants_raw: bool,
        now: Seq<char>,
    ) -> Seq<ApiMessage<Seq<char>>> {
        let o = self.overrides(conversation_id);
        let limit = context_limit(o, s);
        let hits = self.called_to_mind(conversation_id, user_text, memory_limit(o, s));
        context(
            pinned_sections(
                o.system_prompt,
                self.setting_or("core_persona_prompt"@, ""@),
                limit,
            ),
            self.optional_sections(
                conversation_id,
                user_text,
                self.shown_used(hits, now),
                raws,
                wants_raw,
                now,
            ),
            page_from_end(self.timeline(conversation_id), recent_limit(o, s), 0),
            user_text,
            limit,
            false,
        )
    }

    /// What is stored after a model was told: the memories that came to mind
    /// are more important now.
    pub open spec fn after_telling(
        self,
        conversation_id: Seq<char>,
        user_text: Seq<char>,
        s: ChatSettings<Seq<char>>,
        now: Seq<char>,
    ) -> Tables {
        let o = self.overrides(conversation_id);
        self.after_use(
            self.called_to_mind(conversation_id, user_text, memory_limit(o, s)),
            now,
        )
    }
}

/// The memories that come to mind with what the user says, at `now`.
pub fn memories_for_prompt(
    db: &mut Database,
    conversation_id: &str,
    user_text: &str,
    limit: i64,
    now: &str,
) -> (r: Vec<Memory>)
    ensures
        ({
            let hits = old(db)@.called_to_mind(conversation_id@, user_text@, limit as int);
            &&& views(r@) == old(db)@.shown_used(hits, now@)
            &&& final(db)@ == old(db)@.after_use(hits, now@)
        }),
{
    if limit <= 0 {
        let r: Vec<Memory> = Vec::new();
        let ghost hits = db@.called_to_mind(conversation_id@, user_text@, limit as int);
        assert(views(r@) =~= db@.shown_used(hits, now@));
        assert(db@.after_use(hits, now@).memories =~= db@.memories);
        return r;
    }
    db.search_memories_at(user_text, Some(conversation_id), limit, now)
}

/// The lines of the memories that come to mind with what the user says.
pub fn memory_lines_for_prompt(
    db: &mut Database,
    conversation_id: &str,
    user_text: &str,
    limit: i64,
    now: &str,
) -> (r: Vec<String>)
    ensures
        ({
            let hits = old(db)@.called_to_mind(conversation_id@, user_text@, limit as int);
            &&& texts(r@) == memory_lines(old(db)@.shown_used(hits, now@))
            &&& final(db)@ == old(db)@.after_use(hits, now@)
        }),
{
    let memories = memories_for_prompt(db, conversation_id, user_text, limit, now);
    describe_memories(&memories)
}

/// The lines of the attachments of a conversation.
pub fn conversation_file_lines_for_prompt(
    db: &Database,
    conversation_id: &str,
    raws: &Vec<String>,
    wants_raw: bool,
) -> (r: Vec<String>)
    ensures
        texts(r@) == file_lines(db@.files_of(conversation_id@, 8), texts(raws@), wants_raw),
{
    let files = db.list_conversation_files_for_context(conversation_id, 8);
    describe_files(&files, raws, wants_raw)
}

/// The sections that are told where they fit.
fn make_optional(
    db: &Database,
    conversation_id: &str,
    user_text: &str,
    memory_lines: &Vec<String>,
    raws: &Vec<String>,
    wants_raw: bool,
    now: &str,
) -> (r: Vec<String>)
    ensures
        texts(r@) == seq![
            section("[User Profile]"@, profile_lines(db@.user(now@), db@.style(now@))),
            section(
                file_heading(wants_raw),
                file_lines(db@.files_of(conversation_id@, 8), texts(raws@), wants_raw),
            ),
            section("[Relevant Long-Term Memories]"@, texts(memory_lines@)),
            section("[Older Summaries]"@, summary_lines(db@.summary_records(conversation_id@, 8))),
        ],
{
    let profile = describe_profiles(&db.user_profile_at(now), &db.style_profile_at(now));
    let files = conversation_file_lines_for_prompt(db, conversation_id, raws, wants_raw);
    let heading: &str = if wants_raw {
        "[Current Conversation TXT Attachments - Raw Excerpts On Demand]"
    } else {
        "[Current Conversation TXT Attachments - Summaries]"
    };
    let summaries = describe_summaries(&db.list_summary_segments(conversation_id, 8));
    let mut out: Vec<String> = Vec::new();
    out.push(make_section("[User Profile]", &profile));
    out.push(make_section(heading, &files));
    out.push(make_section("[Relevant Long-Term Memories]", memory_lines));
    out.push(make_section("[Older Summaries]", &summaries));
    assert(texts(out@) =~= seq![
        section("[User Profile]"@, profile_lines(db@.user(now@), db@.style(now@))),
        section(
            file_heading(wants_raw),
            file_lines(db@.files_of(conversation_id@, 8), texts(raws@), wants_raw),
        ),
        section("[Relevant Long-Term Memories]"@, texts(memory_lines@)),
        section("[Older Summaries]"@, summary_lines(db@.summary_records(conversation_id@, 8))),
    ]);
    out
}

/// All that a model is told in a conversation when the user says something:
/// with the general settings, the texts of the attached files, where
/// `wants_raw` says whether they are asked for, at `now`.
pub fn build_context_at(
    db: &mut Database,
    conversation_id: &str,
    user_text: &str,
    settings: &ChatSettings,
    raws: &Vec<String>,
    wants_raw: bool,
    now: &str,
) -> (r: Vec<ApiMessage>)
    ensures
        views(r@) == old(db)@.told(
            conversation_id@,
            user_text@,
            settings@,
            texts(raws@),
            wants_raw,
            now@,
        ),
        final(db)@ == old(db)@.after_telling(conversation_id@, user_text@, settings@, now@),
{
    let ghost before = db@;
    let o = db.get_conversation_chat_overrides(conversation_id);
    let provider = normalize_provider(own_text(&o.provider, &settings.provider));
    let model = trim(own_text(&o.model, &settings.model));
    let thinking = if text_eq(&provider, "deepseek") {
        let t = normalize_thinking_override(&o.thinking);
        if t.as_str().is_empty() {
            "enabled".to_owned()
        } else {
            t
        }
    } else {
        String::new()
    };
    let replay = should_replay_reasoning_content(&provider, &model, &thinking);
    let limit: i64 = clamp(
        own_number(o.max_context_tokens, settings.max_context_tokens),
        2048,
        128000,
    );
    let recent_limit: i64 = clamp(
        own_number(o.max_recent_messages, settings.max_recent_messages),
        4,
        48,
    );
    let memory_limit: i64 = clamp(
        own_number(o.max_memory_items, settings.max_memory_items),
        0,
        16,
    );
    let lines = memory_lines_for_prompt(db, conversation_id, user_text, memory_limit, now);
    let optional = make_optional(db, conversation_id, user_text, &lines, raws, wants_raw, now);
    let recent = db.get_recent_messages(conversation_id, recent_limit);
    let persona = db.get_setting("core_persona_prompt", "");
    let pinned = make_pinned(&o.system_prompt, &persona, limit);
    proof {
        assert(views(recent@).len() <= recent_limit);
        assert(db@.timeline(conversation_id@) == before.timeline(conversation_id@));
    }
    assemble_context(pinned, &optional, &recent, user_text, limit, replay)
}

/// All that a model is told in a conversation when the user says something.
pub fn build_context_messages(
    db: &mut Database,
    conversation_id: &str,
    user_text: &str,
    raws: &Vec<String>,
) -> (r: Vec<ApiMessage>)
    ensures
        exists|now: Seq<char>|
            ({
                let s = old(db)@.chat_settings(
                    provider_name(old(db)@.setting_or("provider"@, "deepseek"@)),
                    0,
                );
                &&& crate::stamps::is_time_text(now)
                &&& views(r@) == old(db)@.told(
                    conversation_id@,
                    user_text@,
                    s,
                    texts(raws@),
                    wants_raw_text(user_text@, lowercase(user_text@)),
                    now,
                )
                &&& final(db)@ == #[trigger] old(db)@.after_telling(
                    conversation_id@,
                    user_text@,
                    old(db)@.chat_settings(
                        provider_name(old(db)@.setting_or("provider"@, "deepseek"@)),
                        0,
                    ),
                    now,
                )
            }),
{
    let settings = db.get_chat_settings(0);
    let now = crate::stamps::now_iso();
    let wants_raw = looks_like_raw_txt_request(user_text);
    build_context_at(db, conversation_id, user_text, &settings, raws, wants_raw, &now)
}

// ---------------------------------------------------------------------------
// How a model is asked
// ---------------------------------------------------------------------------

/// How a model is asked, when everything about it is known: `upper` is the
/// provider in upper case, `thinking` and `effort` are empty where the
/// conversation does not say.
pub open spec fn config_of(
    provider: Seq<char>,
    upper: Seq<char>,
    model: Seq<char>,
    base_url: Seq<char>,
    temperature: u32,
    max_tokens: int,
    thinks: bool,
    thinking: Seq<char>,
    effort: Seq<char>,
    api_key: Seq<char>,
) -> Result<ApiRuntimeConfig<Seq<char>>, Seq<char>> {
    let how = if thinking.len() == 0 {
        "enabled"@
    } else {
        thinking
    };
    let special = provider == "deepseek"@ && thinks;
    match base_url_of(provider, base_url) {
        None => Err("provider '"@ + provider + "' requires base_url; please set it in Settings"@),
        Some(url) => if needs_api_key(provider) && is_blank(api_key) {
            Err("missing "@ + upper + " API key, please save it in Settings first"@)
        } else {
            Ok(
                ApiRuntimeConfig {
                    api_key,
                    base_url: url,
                    model,
                    temperature,
                    max_tokens: max_tokens as i64,
                    include_temperature: !special || how != "enabled"@,
                    deepseek_thinking_type: if special {
                        Some(how)
                    } else {
                        None
                    },
                    deepseek_reasoning_effort: if special && how == "enabled"@ {
                        Some(
                            if effort.len() == 0 {
                                "high"@
                            } else {
                                effort
                            },
                        )
                    } else {
                        None
                    },
                },
            )
        },
    }
}

/// The view of a way of asking that may be missing.
pub open spec fn config_view(r: Result<ApiRuntimeConfig, String>) -> Result<
    ApiRuntimeConfig<Seq<char>>,
    Seq<char>,
> {
    match r {
        Ok(c) => Ok(c@),
        Err(e) => Err(e@),
    }
}

/// How a model is asked, when everything about it is known.
pub fn decide_config(
    provider: &str,
    upper: &str,
    model: String,
    base_url: &str,
    temperature: u32,
    max_tokens: i64,
    thinks: bool,
    thinking: String,
    effort: String,
    api_key: String,
) -> (r: Result<ApiRuntimeConfig, String>)
    ensures
        config_view(r) == config_of(
            provider@,
            upper@,
            model@,
            base_url@,
            temperature,
            max_tokens as int,
            thinks,
            thinking@,
            effort@,
            api_key@,
        ),
{
    let url = match resolve_base_url(provider, base_url) {
        Some(u) => u,
        None => {
            let mut e = "provider '".to_owned();
            e.append(provider);
            e.append("' requires base_url; please set it in Settings");
            return Err(e);
        },
    };
    if provider_requires_api_key(provider) && blank(&api_key) {
        let mut e = "missing ".to_owned();
        e.append(upper);
        e.append(" API key, please save it in Settings first");
        return Err(e);
    }
    let mut include_temperature = true;
    let mut kind: Option<String> = None;
    let mut strength: Option<String> = None;
    if text_eq(provider, "deepseek") && thinks {
        let how = if thinking.as_str().is_empty() {
            "enabled".to_owned()
        } else {
            thinking
        };
        let on = text_eq(&how, "enabled");
        include_temperature = !on;
        if on {
            strength = Some(
                if effort.as_str().is_empty() {
                    "high".to_owned()
                } else {
                    effort
                },
            );
        }
        kind = Some(how);
    }
    Ok(
        ApiRuntimeConfig {
            api_key,
            base_url: url,
            model,
            temperature,
            max_tokens,
            include_temperature,
            deepseek_thinking_type: kind,
            deepseek_reasoning_effort: strength,
        },
    )
}

impl Tables {
    /// The key that is stored for a provider; none where it is blank.
    pub open spec fn api_key(self, provider: Seq<char>) -> Option<Seq<char>> {
        let key = trimmed(
            self.setting_or(
                crate::settings::api_key_setting(provider_name(provider)),
                ""@,
            ),
        );
        if key.len() == 0 {
            None
        } else {
            Some(key)
        }
    }

    /// How a model is asked in a conversation, with the general settings `s`.
    pub open spec fn config(
        self,
        conversation_id: Seq<char>,
        s: ChatSettings<Seq<char>>,
        temperature: u32,
    ) -> Result<ApiRuntimeConfig<Seq<char>>, Seq<char>> {
        let o = self.overrides(conversation_id);
        let provider = effective_provider(o, s);
        let model = effective_model(o, s);
        config_of(
            provider,
            uppercase(provider),
            model,
            text_or(o.base_url, s.base_url),
            temperature,
            answer_limit(o, s),
            takes_thinking(model),
            thinking_name(o.thinking),
            effort_name(o.reasoning_effort),
            match self.api_key(provider) {
                Some(k) => k,
                None => Seq::empty(),
            },
        )
    }
}

/// The key that is stored for a provider; none where it is blank.
pub fn load_api_key(db: &Database, provider: &str) -> (r: Option<String>)
    ensures
        opt_text(r) == db@.api_key(provider@),
{
    let key = trim(&db.get_setting(&cfg_key(&normalize_provider(provider)), ""));
    if key.as_str().is_empty() {
        None
    } else {
        Some(key)
    }
}

/// How a model is asked in a conversation, with the general settings.
pub fn conversation_config(
    db: &Database,
    conversation_id: &str,
    settings: &ChatSettings,
    temperature: u32,
) -> (r: Result<ApiRuntimeConfig, String>)
    ensures
        config_view(r) == db@.config(conversation_id@, settings@, temperature),
{
    let o = db.get_conversation_chat_overrides(conversation_id);
    let provider = normalize_provider(own_text(&o.provider, &settings.provider));
    let model = trim(own_text(&o.model, &settings.model));
    let base_url = own_text(&o.base_url, &settings.base_url);
    let max_tokens: i64 = clamp(own_number(o.max_tokens, settings.max_tokens), 256, 262144);
    let thinks = supports_deepseek_thinking_params(&model);
    let thinking = normalize_thinking_override(&o.thinking);
    let effort = normalize_reasoning_effort(&o.reasoning_effort);
    let api_key = match load_api_key(db, &provider) {
        Some(k) => k,
        None => String::new(),
    };
    let upper = provider.to_uppercase();
    decide_config(
        &provider,
        &upper,
        model,
        base_url,
        temperature,
        max_tokens,
        thinks,
        thinking,
        effort,
        api_key,
    )
}

// ---------------------------------------------------------------------------
// Laws
// ---------------------------------------------------------------------------

/// A conversation without settings of its own has the general ones, as far as
/// they are within their bounds.
pub proof fn law_empty_settings_fall_back(s: ChatSettings<Seq<char>>)
    ensures
        ({
            let o = crate::db::conversations::no_overrides();
            &&& effective_provider(o, s) == provider_name(s.provider)
            &&& effective_model(o, s) == trimmed(s.model)
            &&& text_or(o.base_url, s.base_url) == s.base_url
            &&& answer_limit(o, s) == clamped(s.max_tokens as int, 256, 262144)
            &&& context_limit(o, s) == clamped(s.max_context_tokens as int, 2048, 128000)
            &&& recent_limit(o, s) == clamped(s.max_recent_messages as int, 4, 48)
            &&& memory_limit(o, s) == clamped(s.max_memory_items as int, 0, 16)
        }),
{
    reveal_strlit("");
    assert(is_blank(""@)) by {
        assert(trimmed(""@).len() == 0);
    }
}

/// The settings of a conversation are used in place of the general ones, as far
/// as they are within their bounds.
pub proof fn law_own_settings_are_used(o: ChatOverrides<Seq<char>>, s: ChatSettings<Seq<char>>)
    ensures
        !is_blank(o.provider) ==> effective_provider(o, s) == provider_name(o.provider),
        !is_blank(o.model) ==> effective_model(o, s) == trimmed(o.model),
        !is_blank(o.base_url) ==> text_or(o.base_url, s.base_url) == o.base_url,
        match o.max_tokens {
            Some(n) => answer_limit(o, s) == clamped(n as int, 256, 262144),
            None => true,
        },
        match o.max_context_tokens {
            Some(n) => context_limit(o, s) == clamped(n as int, 2048, 128000),
            None => true,
        },
        match o.max_recent_messages {
            Some(n) => recent_limit(o, s) == clamped(n as int, 4, 48),
            None => true,
        },
        match o.max_memory_items {
            Some(n) => memory_limit(o, s) == clamped(n as int, 0, 16),
            None => true,
        },
{
}

/// How to think is said only to a provider and a model that take it. Where a
/// model is to think, no temperature is sent, and how hard it is to think is
/// said; where not, the temperature is sent and nothing is said of how hard.
pub proof fn law_thinking_excludes_temperature(
    provider: Seq<char>,
    upper: Seq<char>,
    model: Seq<char>,
    base_url: Seq<char>,
    temperature: u32,
    max_tokens: int,
    thinks: bool,
    thinking: Seq<char>,
    effort: Seq<char>,
    api_key: Seq<char>,
)
    ensures
        match config_of(
            provider,
            upper,
            model,
            base_url,
            temperature,
            max_tokens,
            thinks,
            thinking,
            effort,
            api_key,
        ) {
            Ok(c) => {
                &&& c.deepseek_thinking_type is Some <==> provider == "deepseek"@ && thinks
                &&& !c.include_temperature <==> c.deepseek_thinking_type == Some("enabled"@)
                &&& c.deepseek_reasoning_effort is Some <==> !c.include_temperature
                &&& c.deepseek_thinking_type is Some && thinking.len() == 0
                    ==> c.deepseek_thinking_type == Some("enabled"@)
                &&& c.deepseek_reasoning_effort is Some && effort.len() == 0
                    ==> c.deepseek_reasoning_effort == Some("high"@)
            },
            Err(_) => true,
        },
{
}

/// A model is told nothing of other conversations: the attachments and the
/// messages that are told belong to this one.
pub proof fn law_told_belongs_to_conversation(
    t: Tables,
    conversation_id: Seq<char>,
    limit: int,
    i: int,
    m: crate::models::Message<Seq<char>>,
)
    requires
        0 <= i < t.files_of(conversation_id, 8).len(),
        limit >= 0,
        page_from_end(t.timeline(conversation_id), limit, 0).contains(m),
    ensures
        t.files_of(conversation_id, 8)[i].conversation_id == trimmed(conversation_id),
        m.conversation_id == conversation_id,
        m.deleted_at is None,
{
    crate::db::attachments::law_files_belong(t, conversation_id, 8, i);
    crate::db::messages::law_timeline(t, conversation_id);
    let page = page_from_end(t.timeline(conversation_id), limit, 0);
    let k = choose|k: int| 0 <= k < page.len() && page[k] == m;
    let all = t.timeline(conversation_id);
    if all.len() <= limit {
        assert(all[k] == m);
    } else {
        assert(all[all.len() - limit + k] == m);
    }
    assert(all.contains(m));
}

/// A model is told at most fifty messages, however long the conversation is.
pub proof fn law_few_messages_are_told(
    t: Tables,
    conversation_id: Seq<char>,
    user_text: Seq<char>,
    s: ChatSettings<Seq<char>>,
    raws: Seq<Seq<char>>,
    wants_raw: bool,
    now: Seq<char>,
)
    ensures
        t.told(conversation_id, user_text, s, raws, wants_raw, now).len() <= recent_limit(
            t.overrides(conversation_id),
            s,
        ) + 2 <= 50,
{
    let o = t.overrides(conversation_id);
    let recent = page_from_end(t.timeline(conversation_id), recent_limit(o, s), 0);
    crate::budget::law_few_messages_are_sent(
        pinned_sections(
            o.system_prompt,
            t.setting_or("core_persona_prompt"@, ""@),
            context_limit(o, s),
        ),
        recent,
        user_text,
        context_limit(o, s),
        false,
    );
}

/// Blank rules of a conversation are not told.
pub proof fn law_blank_rules_are_not_told(persona: Seq<char>, rules: Seq<char>, max_context: int)
    ensures
        is_blank(rules) ==> pinned_sections(rules, persona, max_context).len() <= 1,
        is_blank(rules) && is_blank(persona) ==> pinned_sections(rules, persona, max_context).len()
            == 0,
        !is_blank(rules) ==> crate::text::starts(
            pinned_sections(rules, persona, max_context)[0],
            "[Conversation System Prompt]\n"@,
        ),
{
    if !is_blank(rules) {
        let first = pinned_sections(rules, persona, max_context)[0];
        let head = "[Conversation System Prompt]\n"@;
        assert(first.take(head.len() as int) =~= head);
    }
}

} // verus!
