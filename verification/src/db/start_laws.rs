//! What a new database holds, and what becomes of an old one.
use vstd::prelude::*;
use crate::db::chat_settings::{first_settings, law_setting_reads_back, offered_models};
use crate::db::profiles::{blank_user, first_style};
use crate::db::schema::{
    added_column, is_first_segment, version_name, versions_after,
    LegacySummary,
};
use crate::db::{carried_out, error_text, DbError, Tables};
use crate::json::texts_json;
use crate::memory::matchable;
use crate::numbers::{decimal, parsed};
use crate::settings::{default_model_names, stored_base_url};
use crate::table::{first_where, lemma_first_where};
use crate::text::{same_ignoring_ascii_case, trimmed};

verus! {

/// A value that is stored where there was none is read back; a later pair with
/// the same key does not change it.
proof fn lemma_default_reads_back(
    t: Tables,
    pairs: Seq<(Seq<char>, Seq<char>)>,
    now: Seq<char>,
    k: int,
)
    requires
        0 <= k < pairs.len(),
        t.setting(pairs[k].0) is None,
        forall|i: int| 0 <= i < k ==> (#[trigger] pairs[i]).0 != pairs[k].0,
    ensures
        t.with_defaults(pairs, now).setting(pairs[k].0) == Some(pairs[k].1),
    decreases pairs.len(),
{
    let front = pairs.drop_last();
    let before = t.with_defaults(front, now);
    law_setting_reads_back(before, pairs.last().0, pairs.last().1, now);
    if k < front.len() {
        assert forall|i: int| 0 <= i < k implies (#[trigger] front[i]).0 != front[k].0 by {
            assert(front[i] == pairs[i]);
        }
        lemma_default_reads_back(t, front, now, k);
    } else {
        lemma_untouched(t, front, now, pairs[k].0);
    }
}

proof fn lemma_untouched(
    t: Tables,
    pairs: Seq<(Seq<char>, Seq<char>)>,
    now: Seq<char>,
    key: Seq<char>,
)
    requires
        t.setting(key) is None,
        forall|i: int| 0 <= i < pairs.len() ==> (#[trigger] pairs[i]).0 != key,
    ensures
        t.with_defaults(pairs, now).setting(key) is None,
    decreases pairs.len(),
{
    if pairs.len() > 0 {
        let front = pairs.drop_last();
        assert forall|i: int| 0 <= i < front.len() implies (#[trigger] front[i]).0 != key by {
            assert(front[i] == pairs[i]);
        }
        lemma_untouched(t, front, now, key);
        assert(pairs[pairs.len() - 1].0 != key);
        law_setting_reads_back(t.with_defaults(front, now), pairs.last().0, pairs.last().1, now);
    }
}

/// A new database has a provider, its address and model, and the usual numbers.
pub proof fn law_new_databases_have_settings(
    settings_now: Seq<char>,
    user_now: Seq<char>,
    style_now: Seq<char>,
)
    ensures
        ({
            let t = Tables::empty().started(settings_now, user_now, style_now);
            &&& t.setting("provider"@) == Some("deepseek"@)
            &&& t.setting("base_url"@) == Some("https://api.deepseek.com"@)
            &&& t.setting("model"@) == Some("deepseek-chat"@)
            &&& t.setting("temperature"@) == Some("0.7"@)
            &&& t.setting("max_tokens"@) == Some("4096"@)
            &&& t.setting("max_context_tokens"@) == Some("12000"@)
            &&& t.setting("max_recent_messages"@) == Some("20"@)
            &&& t.setting("max_memory_items"@) == Some("8"@)
            &&& t.setting("theme_mode"@) == Some("system"@)
            &&& t.setting("models"@) == Some(texts_json(default_model_names()))
            &&& t.user_profile == Some(blank_user(user_now))
            &&& t.style_profile == Some(first_style(style_now))
        }),
{
    let pairs = first_settings(texts_json(default_model_names()));
    let none = Tables::empty();
    reveal_strlit("provider");
    reveal_strlit("base_url");
    reveal_strlit("model");
    reveal_strlit("temperature");
    reveal_strlit("max_tokens");
    reveal_strlit("max_context_tokens");
    reveal_strlit("max_recent_messages");
    reveal_strlit("max_memory_items");
    reveal_strlit("last_conversation_id");
    reveal_strlit("theme_mode");
    reveal_strlit("models");
    assert(pairs[0].0.len() == 8 && pairs[0].0[0] == 'p');
    assert(pairs[1].0.len() == 8 && pairs[1].0[0] == 'b');
    assert(pairs[2].0.len() == 5);
    assert(pairs[3].0.len() == 11);
    assert(pairs[4].0.len() == 10 && pairs[4].0[0] == 'm');
    assert(pairs[5].0.len() == 18);
    assert(pairs[6].0.len() == 19);
    assert(pairs[7].0.len() == 16);
    assert(pairs[8].0.len() == 20);
    assert(pairs[9].0.len() == 10 && pairs[9].0[0] == 't');
    assert(pairs[10].0.len() == 6);
    lemma_default_reads_back(none, pairs, settings_now, 0);
    lemma_default_reads_back(none, pairs, settings_now, 1);
    lemma_default_reads_back(none, pairs, settings_now, 2);
    lemma_default_reads_back(none, pairs, settings_now, 3);
    lemma_default_reads_back(none, pairs, settings_now, 4);
    lemma_default_reads_back(none, pairs, settings_now, 5);
    lemma_default_reads_back(none, pairs, settings_now, 6);
    lemma_default_reads_back(none, pairs, settings_now, 7);
    lemma_default_reads_back(none, pairs, settings_now, 9);
    lemma_default_reads_back(none, pairs, settings_now, 10);
    let a = none.with_defaults(pairs, settings_now);
    let t = none.started(settings_now, user_now, style_now);
    lemma_profiles_stay(none, pairs, settings_now);
    assert(t.settings == a.settings);
    assert forall|key: Seq<char>| #[trigger] t.setting(key) == a.setting(key) by {}
}

proof fn lemma_profiles_stay(t: Tables, pairs: Seq<(Seq<char>, Seq<char>)>, now: Seq<char>)
    ensures
        t.with_defaults(pairs, now).user_profile == t.user_profile,
        t.with_defaults(pairs, now).style_profile == t.style_profile,
    decreases pairs.len(),
{
    if pairs.len() > 0 {
        lemma_profiles_stay(t, pairs.drop_last(), now);
    }
}

/// Of a user nothing is known at first but that any language will do; answers
/// are balanced, warm and direct.
pub proof fn law_first_profiles(now: Seq<char>)
    ensures
        blank_user(now).preferred_name.len() == 0,
        blank_user(now).long_term_goals.len() == 0,
        blank_user(now).interests.len() == 0,
        blank_user(now).important_experiences.len() == 0,
        blank_user(now).notes.len() == 0,
        blank_user(now).language_preference == "auto"@,
        first_style(now).detail_level == "balanced"@,
        first_style(now).tone == "warm_direct"@,
        first_style(now).technical_level == "balanced"@,
        first_style(now).language_style == "auto"@,
        first_style(now).explicit_preferences.len() == 0,
{
    reveal_strlit("");
}

/// A summary of an old database becomes the first segment of its conversation.
pub proof fn law_old_summaries_are_taken_over(
    t: Tables,
    l: LegacySummary<Seq<char>>,
    fresh: Seq<char>,
)
    requires
        trimmed(l.conversation_id).len() > 0,
        trimmed(l.summary).len() > 0,
    ensures
        match t.with_legacy(l, fresh) {
            Ok(u) => exists|k: int|
                0 <= k < u.summaries.len() && (#[trigger] u.summaries[k]).conversation_id
                    == l.conversation_id && u.summaries[k].segment_index == 0
                    && u.summaries[k].summary == l.summary
                    && u.summaries[k].covered_end_message_id == l.covered_until_message_id
                    && u.summaries[k].covered_end_created_at == l.covered_until_created_at,
            Err(e) => e == DbError::SummaryExists || e == DbError::NoConversation,
        },
{
    lemma_first_where(t.summaries, is_first_segment(l.conversation_id));
    match t.with_legacy(l, fresh) {
        Ok(u) => {
            match first_where(t.summaries, is_first_segment(l.conversation_id)) {
                Some(i) => {
                    assert(is_first_segment(l.conversation_id)(t.summaries[i]));
                    assert(u.summaries[i].summary == l.summary);
                },
                None => {
                    assert(u.summaries[t.summaries.len() as int].summary == l.summary);
                },
            }
        },
        Err(_) => {},
    }
}

/// A summary of an old database without a conversation or a text is passed over.
pub proof fn law_blank_summaries_are_passed_over(
    t: Tables,
    l: LegacySummary<Seq<char>>,
    fresh: Seq<char>,
)
    requires
        trimmed(l.conversation_id).len() == 0 || trimmed(l.summary).len() == 0,
    ensures
        t.with_legacy(l, fresh) == Ok::<Tables, DbError>(t),
{
}

/// A column is added to a table where it is missing, by a statement that names
/// the table, the column and its kind.
pub proof fn law_missing_columns_are_added(
    columns: Seq<Seq<char>>,
    table: Seq<char>,
    column: Seq<char>,
    def: Seq<char>,
)
    ensures
        (exists|i: int|
            0 <= i < columns.len() && same_ignoring_ascii_case(#[trigger] columns[i], column))
            ==> added_column(columns, table, column, def) is None,
        !(exists|i: int|
            0 <= i < columns.len() && same_ignoring_ascii_case(#[trigger] columns[i], column))
            ==> added_column(columns, table, column, def) == Some(
            "ALTER TABLE "@ + table + " ADD COLUMN "@ + column + " "@ + def,
        ),
{
}

/// The versions are named by their numbers; the latest is the twelfth.
pub proof fn law_versions_are_named(v: int)
    ensures
        version_name(v) == "migration_v"@ + decimal(v),
        versions_after(11) == seq![12i64],
        versions_after(12).len() == 0,
        versions_after(0).len() == 12,
{
    assert(versions_after(11) =~= seq![12i64]);
}

/// A change that is refused changes nothing, and the reason comes back; one that
/// is not leaves what was to be.
pub proof fn law_refused_changes_change_nothing(
    r: Result<(), DbError>,
    want: Result<Tables, DbError>,
    before: Tables,
    after: Tables,
)
    requires
        carried_out(r, want, before, after),
    ensures
        match r {
            Ok(_) => want == Ok::<Tables, DbError>(after),
            Err(e) => want == Err::<Tables, DbError>(e) && after == before,
        },
{
}

/// What is said of a refusal names its reason.
pub proof fn law_refusals_name_their_reason()
    ensures
        error_text(DbError::MemoryNotFound) == "memory not found"@,
        error_text(DbError::ConversationRequired)
            == "conversation_id required when converting to conversation scope"@,
        error_text(DbError::NoConversation) == "FOREIGN KEY constraint failed"@,
        error_text(DbError::MessageExists) == "UNIQUE constraint failed: messages.id"@,
        error_text(DbError::ConversationExists) == "UNIQUE constraint failed: conversations.id"@,
        error_text(DbError::MemoryExists) == "UNIQUE constraint failed: memories.id"@,
        error_text(DbError::FileExists) == "UNIQUE constraint failed: conversation_files.id"@,
{
}

/// When the program has started, every memory is known by its words without
/// noise.
pub proof fn law_starting_refreshes_memories(
    t: Tables,
    settings_now: Seq<char>,
    user_now: Seq<char>,
    style_now: Seq<char>,
    i: int,
)
    requires
        0 <= i < t.memories.len(),
    ensures
        ({
            let u = t.started(settings_now, user_now, style_now);
            &&& u.memories.len() == t.memories.len()
            &&& u.memories[i].normalized_content == matchable(t.memories[i].content)
            &&& u.memories[i].content == t.memories[i].content
        }),
{
    crate::db::schema::law_starting_keeps_rows(t, settings_now, user_now, style_now);
}

/// Settings that are missing, or make no sense, are read as the usual ones.
pub proof fn law_missing_settings(t: Tables, provider: Seq<char>, bits: u32)
    ensures
        ({
            let c = t.chat_settings(provider, bits);
            &&& c.provider == provider
            &&& c.temperature == bits
            &&& t.setting("model"@) is None ==> c.model == "deepseek-chat"@
            &&& t.setting("model"@) matches Some(m) ==> (trimmed(m).len() > 0 ==> c.model == m)
            &&& t.setting("base_url"@) is None ==> c.base_url == stored_base_url(provider)
            &&& t.setting("base_url"@) matches Some(b) ==> (trimmed(b).len() > 0 ==> c.base_url
                == b)
            &&& t.setting("max_tokens"@) matches Some(n) ==> (parsed(n) is None ==> c.max_tokens
                == 4096) && (parsed(n) matches Some(v) ==> (v > 0 ==> c.max_tokens == v) && (v <= 0
                ==> c.max_tokens == 4096))
            &&& t.setting("max_context_tokens"@) matches Some(n) ==> (parsed(n) is None
                ==> c.max_context_tokens == 12000) && (parsed(n) matches Some(v) ==> (v > 0
                ==> c.max_context_tokens == v) && (v <= 0 ==> c.max_context_tokens == 12000))
            &&& t.setting("max_recent_messages"@) matches Some(n) ==> (parsed(n) is None
                ==> c.max_recent_messages == 20) && (parsed(n) matches Some(v) ==> (v > 0
                ==> c.max_recent_messages == v) && (v <= 0 ==> c.max_recent_messages == 20))
            &&& t.setting("max_memory_items"@) matches Some(n) ==> (parsed(n) is None
                ==> c.max_memory_items == 8) && (parsed(n) matches Some(v) ==> (v >= 0
                ==> c.max_memory_items == v) && (v < 0 ==> c.max_memory_items == 8))
        }),
{
}

/// The models that are offered are those that were stored, where there are any,
/// else six that are known.
pub proof fn law_offered_models(list: Seq<Seq<char>>)
    ensures
        list.len() > 0 ==> offered_models(Some(list)) == list,
        list.len() == 0 ==> offered_models(Some(list)) == default_model_names(),
        offered_models(None) == default_model_names(),
        default_model_names().len() == 6,
        default_model_names()[0] == "deepseek-chat"@,
        default_model_names()[1] == "deepseek-reasoner"@,
        default_model_names()[2] == "deepseek-v4-flash"@,
        default_model_names()[3] == "deepseek-v4-pro"@,
        default_model_names()[4] == "gpt-4.1"@,
        default_model_names()[5] == "gpt-4.1-mini"@,
{
}

/// The settings of the chat that are in use are those of the provider that is
/// set, or of the first one.
pub proof fn law_chat_in_use(t: Tables, bits: u32)
    ensures
        t.setting("provider"@) matches Some(p) ==> t.chat_in_use(bits) == t.chat_settings(
            crate::settings::provider_name(p),
            bits,
        ),
        t.setting("provider"@) is None ==> t.chat_in_use(bits) == t.chat_settings(
            crate::settings::provider_name("deepseek"@),
            bits,
        ),
{
}

/// A stored setting says when it was stored; nothing but the settings changes.
pub proof fn law_settings_are_dated(t: Tables, key: Seq<char>, value: Seq<char>, now: Seq<char>)
    ensures
        ({
            let u = t.with_setting(key, value, now);
            &&& u == (Tables { settings: u.settings, ..t })
            &&& exists|i: int|
                0 <= i < u.settings.len() && (#[trigger] u.settings[i]).key == key
                    && u.settings[i].value == value && u.settings[i].updated_at == now
            &&& u.settings.len() <= t.settings.len() + 1
        }),
{
    let p = crate::db::chat_settings::has_key(key);
    lemma_first_where(t.settings, p);
    let u = t.with_setting(key, value, now);
    match first_where(t.settings, p) {
        Some(i) => {
            assert(p(t.settings[i]));
            assert(u.settings[i].value == value);
        },
        None => {
            assert(u.settings[t.settings.len() as int].value == value);
        },
    }
}

/// A database is backed up before it is brought up to date where it is older
/// than the twelfth version and there is a place for backups; the name says from
/// which version to which.
pub proof fn law_old_databases_are_backed_up(version: int, has_place: bool)
    ensures
        crate::db::schema::is_backed_up(version, has_place) <==> version < 12 && has_place,
        crate::backup::migration_beginning(version, 12) == "pre_migration_v"@ + decimal(version)
            + "_to_v"@ + decimal(12) + "_"@,
{
}

} // verus!
