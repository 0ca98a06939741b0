//! Which settings hold, how a model is asked, which backups stay, and under
//! which names files are kept.
use vstd::prelude::*;
use crate::backup::{
    auto_backups, backup_name, is_auto_name, is_due, newest_first, outdated, quoted, restore_fault,
    BackupFile,
};
use crate::chat::{
    answer_limit, config_of, context_limit, effective_model, effective_provider, memory_limit,
    recent_limit, text_or,
};
use crate::db::chat_settings::storable;
use crate::db::order_laws::lemma_sorted_has;
use crate::db::soundness::lemma_filter_keeps;
use crate::db::Tables;
use crate::files::{
    first_lines, is_name_char, is_slash, is_step, is_txt_name, last_dot, masked, path_name, steps,
    stored_name, txt_summary, underscored, wants_raw_text, without_leading_dots,
};
use crate::memory::filled_lines;
use crate::models::{ChatOverrides, ChatSettings, UploadTxtFileInput};
use crate::settings::{
    api_key_setting, base_url_of, clamped, effort_name, needs_api_key, provider_name, scope_name,
    stored_base_url, takes_thinking, theme_name, thinking_name,
};
use crate::text::{
    clipped, ends, has_part, is_white_space, joined, law_trimmed_of, lowercase, pieces, replaced,
    same_ignoring_ascii_case, starts, trimmed,
};
use crate::uploads::{is_upload_of, upload_fault, Upload};
use vstd::utf8::encode_utf8;

verus! {

// ---------------------------------------------------------------------------
// Numbers and names
// ---------------------------------------------------------------------------

/// A number is kept within its bounds: one that lies between them stays, any
/// other becomes the nearer bound.
pub proof fn law_bounds(v: int, lo: int, hi: int)
    requires
        lo <= hi,
    ensures
        lo <= clamped(v, lo, hi) <= hi,
        lo <= v <= hi ==> clamped(v, lo, hi) == v,
        v < lo ==> clamped(v, lo, hi) == lo,
        v > hi ==> clamped(v, lo, hi) == hi,
{
}

/// A provider is known by its name in lower case, without white space around it;
/// without a name it is the first one.
pub proof fn law_provider_names(input: Seq<char>)
    ensures
        lowercase(trimmed(input)).len() > 0 ==> provider_name(input) == lowercase(trimmed(input)),
        lowercase(trimmed(input)).len() == 0 ==> provider_name(input) == "deepseek"@,
        api_key_setting(input) == "api_key_"@ + lowercase(trimmed(input)),
{
}

/// The words for thinking, effort, theme and scope are taken in any case; any
/// other word stands for none, or for the first choice.
pub proof fn law_words_for_choices(input: Seq<char>)
    ensures
        ({
            let word = lowercase(trimmed(input));
            &&& thinking_name(input) == "enabled"@ <==> word == "enabled"@
            &&& thinking_name(input) == "disabled"@ <==> word == "disabled"@
            &&& thinking_name(input).len() == 0 <==> word != "enabled"@ && word != "disabled"@
            &&& effort_name(input) == "high"@ <==> word == "high"@
            &&& effort_name(input) == "max"@ <==> word == "max"@
            &&& effort_name(input).len() == 0 <==> word != "high"@ && word != "max"@
            &&& theme_name(input) == "light"@ <==> word == "light"@
            &&& theme_name(input) == "dark"@ <==> word == "dark"@
            &&& theme_name(input) == "system"@ <==> word != "light"@ && word != "dark"@
            &&& takes_thinking(input) <==> word == "deepseek-v4-pro"@ || word
                == "deepseek-v4-flash"@
            &&& scope_name(input) == "conversation"@ <==> same_ignoring_ascii_case(
                trimmed(input),
                "conversation"@,
            )
            &&& scope_name(input) == "conversation"@ || scope_name(input) == "global"@
        }),
{
    reveal_strlit("enabled");
    reveal_strlit("disabled");
    reveal_strlit("high");
    reveal_strlit("max");
    reveal_strlit("light");
    reveal_strlit("dark");
    reveal_strlit("system");
    reveal_strlit("conversation");
    reveal_strlit("global");
    assert("enabled"@.len() == 7 && "disabled"@.len() == 8 && "high"@.len() == 4 && "max"@.len()
        == 3 && "light"@.len() == 5 && "dark"@.len() == 4 && "system"@.len() == 6
        && "conversation"@.len() == 12 && "global"@.len() == 6);
}

/// A provider is asked at the address that was set, without white space around
/// it, else at its own; one that is not known has none.
pub proof fn law_addresses_of_providers(provider: Seq<char>, own: Seq<char>)
    ensures
        trimmed(own).len() > 0 ==> base_url_of(provider, own) == Some(trimmed(own)),
        trimmed(own).len() == 0 ==> {
            &&& provider == "deepseek"@ ==> base_url_of(provider, own) == Some(
                "https://api.deepseek.com"@,
            )
            &&& provider == "openai"@ ==> base_url_of(provider, own) == Some(
                "https://api.openai.com/v1"@,
            )
            &&& provider == "openrouter"@ ==> base_url_of(provider, own) == Some(
                "https://openrouter.ai/api/v1"@,
            )
            &&& provider == "ollama"@ ==> base_url_of(provider, own) == Some(
                "http://127.0.0.1:11434/v1"@,
            )
            &&& base_url_of(provider, own) is Some ==> provider == "deepseek"@ || provider
                == "openai"@ || provider == "openrouter"@ || provider == "ollama"@
        },
        needs_api_key(provider) <==> provider == "deepseek"@ || provider == "openai"@ || provider
            == "openrouter"@,
        provider == "openai"@ ==> stored_base_url(provider) == "https://api.openai.com/v1"@,
        provider == "openrouter"@ ==> stored_base_url(provider) == "https://openrouter.ai/api/v1"@,
        provider == "ollama"@ ==> stored_base_url(provider) == "http://127.0.0.1:11434/v1"@,
        provider == "custom"@ ==> stored_base_url(provider).len() == 0,
        provider != "openai"@ && provider != "openrouter"@ && provider != "ollama"@ && provider
            != "custom"@ ==> stored_base_url(provider) == "https://api.deepseek.com"@,
{
    reveal_strlit("deepseek");
    reveal_strlit("openai");
    reveal_strlit("openrouter");
    reveal_strlit("ollama");
    reveal_strlit("custom");
    reveal_strlit("");
    assert("deepseek"@[0] == 'd' && "openai"@.len() == 6 && "openai"@[1] == 'p'
        && "openrouter"@.len() == 10 && "ollama"@.len() == 6 && "ollama"@[1] == 'l'
        && "custom"@[0] == 'c');
}

// ---------------------------------------------------------------------------
// Asking a model
// ---------------------------------------------------------------------------

/// A model is asked as it was set: with the model, the length of the answer, the
/// temperature and the key that hold, at the address that was set. Without an
/// address, or without a key where one is needed, it is not asked, and it is
/// said why.
pub proof fn law_models_are_asked_as_set(
    provider: Seq<char>,
    upper: Seq<char>,
    model: Seq<char>,
    base_url: Seq<char>,
    temperature: u32,
    max_tokens: int,
    thinks: bool,
    thinking: Seq<char>,
    effort: Seq<char>,
    api_key: Seq<char>,
)
    requires
        i64::MIN <= max_tokens <= i64::MAX,
    ensures
        ({
            let known = provider == "deepseek"@ || provider == "openai"@ || provider
                == "openrouter"@ || provider == "ollama"@;
            let needs = provider == "deepseek"@ || provider == "openai"@ || provider
                == "openrouter"@;
            match config_of(
                provider,
                upper,
                model,
                base_url,
                temperature,
                max_tokens,
                thinks,
                thinking,
                effort,
                api_key,
            ) {
                Ok(c) => {
                    &&& trimmed(base_url).len() > 0 || known
                    &&& !needs || trimmed(api_key).len() > 0
                    &&& c.model == model
                    &&& c.max_tokens == max_tokens
                    &&& c.temperature == temperature
                    &&& c.api_key == api_key
                    &&& trimmed(base_url).len() > 0 ==> c.base_url == trimmed(base_url)
                    &&& provider != "deepseek"@ || !thinks ==> c.include_temperature
                        && c.deepseek_thinking_type is None && c.deepseek_reasoning_effort is None
                    &&& provider == "deepseek"@ && thinks && thinking == "disabled"@
                        ==> c.include_temperature && c.deepseek_thinking_type == Some("disabled"@)
                        && c.deepseek_reasoning_effort is None
                    &&& provider == "deepseek"@ && thinks && (thinking.len() == 0 || thinking
                        == "enabled"@) ==> !c.include_temperature && c.deepseek_thinking_type
                        == Some("enabled"@) && c.deepseek_reasoning_effort == Some(
                        if effort.len() == 0 {
                            "high"@
                        } else {
                            effort
                        },
                    )
                },
                Err(e) => {
                    ||| trimmed(base_url).len() == 0 && !known && e == "provider '"@ + provider
                        + "' requires base_url; please set it in Settings"@
                    ||| (trimmed(base_url).len() > 0 || known) && needs && trimmed(api_key).len()
                        == 0 && e == "missing "@ + upper
                        + " API key, please save it in Settings first"@
                },
            }
        }),
{
    law_addresses_of_providers(provider, base_url);
    reveal_strlit("enabled");
    reveal_strlit("disabled");
    assert("enabled"@.len() != "disabled"@.len());
}

/// The settings of a conversation win over the general ones, where it has any:
/// for the provider, the model, the address and every number, within bounds.
pub proof fn law_settings_of_conversations_win(
    o: ChatOverrides<Seq<char>>,
    s: ChatSettings<Seq<char>>,
)
    ensures
        trimmed(o.model).len() > 0 ==> effective_model(o, s) == trimmed(o.model),
        trimmed(o.model).len() == 0 ==> effective_model(o, s) == trimmed(s.model),
        trimmed(o.provider).len() > 0 ==> effective_provider(o, s) == provider_name(o.provider),
        trimmed(o.provider).len() == 0 ==> effective_provider(o, s) == provider_name(s.provider),
        trimmed(o.base_url).len() > 0 ==> text_or(o.base_url, s.base_url) == o.base_url,
        trimmed(o.base_url).len() == 0 ==> text_or(o.base_url, s.base_url) == s.base_url,
        ({
            let n = match o.max_tokens {
                Some(v) => v,
                None => s.max_tokens,
            };
            &&& 256 <= n <= 262144 ==> answer_limit(o, s) == n
            &&& n < 256 ==> answer_limit(o, s) == 256
            &&& n > 262144 ==> answer_limit(o, s) == 262144
        }),
        ({
            let n = match o.max_context_tokens {
                Some(v) => v,
                None => s.max_context_tokens,
            };
            &&& 2048 <= n <= 128000 ==> context_limit(o, s) == n
            &&& n < 2048 ==> context_limit(o, s) == 2048
            &&& n > 128000 ==> context_limit(o, s) == 128000
        }),
        ({
            let n = match o.max_recent_messages {
                Some(v) => v,
                None => s.max_recent_messages,
            };
            &&& 4 <= n <= 48 ==> recent_limit(o, s) == n
            &&& n < 4 ==> recent_limit(o, s) == 4
            &&& n > 48 ==> recent_limit(o, s) == 48
        }),
        ({
            let n = match o.max_memory_items {
                Some(v) => v,
                None => s.max_memory_items,
            };
            &&& 0 <= n <= 16 ==> memory_limit(o, s) == n
            &&& n < 0 ==> memory_limit(o, s) == 0
            &&& n > 16 ==> memory_limit(o, s) == 16
        }),
{
}

/// In a conversation a model is asked with what holds there, and with the key
/// that is stored for the provider.
pub proof fn law_conversations_ask_their_model(
    t: Tables,
    id: Seq<char>,
    s: ChatSettings<Seq<char>>,
    temperature: u32,
)
    ensures
        ({
            let o = t.overrides(id);
            match t.config(id, s, temperature) {
                Ok(c) => {
                    &&& c.model == (if trimmed(o.model).len() > 0 {
                        trimmed(o.model)
                    } else {
                        trimmed(s.model)
                    })
                    &&& c.temperature == temperature
                    &&& 256 <= c.max_tokens <= 262144
                    &&& o.max_tokens matches Some(n) ==> (256 <= n <= 262144 ==> c.max_tokens == n)
                    &&& trimmed(o.base_url).len() > 0 ==> c.base_url == trimmed(o.base_url)
                    &&& trimmed(o.base_url).len() == 0 && trimmed(s.base_url).len() > 0
                        ==> c.base_url == trimmed(s.base_url)
                    &&& t.api_key(effective_provider(o, s)) matches Some(k) ==> c.api_key == k
                    &&& t.api_key(effective_provider(o, s)) is None ==> c.api_key.len() == 0
                },
                Err(_) => true,
            }
        }),
{
}

/// The key of a provider is the one stored under its name, without white space
/// around it; a blank one is none.
pub proof fn law_keys_of_providers(t: Tables, provider: Seq<char>)
    ensures
        ({
            let stored = t.setting("api_key_"@ + lowercase(trimmed(provider_name(provider))));
            &&& stored is None ==> t.api_key(provider) is None
            &&& stored matches Some(k) ==> (trimmed(k).len() > 0 ==> t.api_key(provider) == Some(
                trimmed(k),
            )) && (trimmed(k).len() == 0 ==> t.api_key(provider) is None)
        }),
{
    let none = Seq::<char>::empty();
    reveal_strlit("");
    law_trimmed_of(none, none, none);
    assert(none + none + none =~= none);
    assert(""@ =~= none);
}

/// The settings of the chat are stored as they were set; what is missing or
/// makes no sense is replaced by the first choice.
pub proof fn law_settings_are_stored_as_set(s: ChatSettings<Seq<char>>, provider: Seq<char>)
    ensures
        ({
            let r = storable(s, provider);
            &&& r.provider == provider
            &&& trimmed(s.base_url).len() > 0 ==> r.base_url == trimmed(s.base_url)
            &&& trimmed(s.model).len() > 0 ==> r.model == trimmed(s.model)
            &&& trimmed(s.model).len() == 0 ==> r.model == "deepseek-chat"@
            &&& r.temperature == s.temperature
            &&& s.max_tokens > 0 ==> r.max_tokens == s.max_tokens
            &&& s.max_tokens <= 0 ==> r.max_tokens == 4096
            &&& s.max_context_tokens > 0 ==> r.max_context_tokens == s.max_context_tokens
            &&& s.max_context_tokens <= 0 ==> r.max_context_tokens == 12000
            &&& s.max_recent_messages > 0 ==> r.max_recent_messages == s.max_recent_messages
            &&& s.max_recent_messages <= 0 ==> r.max_recent_messages == 20
            &&& s.max_memory_items >= 0 ==> r.max_memory_items == s.max_memory_items
            &&& s.max_memory_items < 0 ==> r.max_memory_items == 8
        }),
{
}

// ---------------------------------------------------------------------------
// Backups
// ---------------------------------------------------------------------------

/// Of the backups that were made by themselves the fourteen newest stay; a file
/// that is no such backup is never removed.
pub proof fn law_fourteen_backups_stay(files: Seq<BackupFile<Seq<char>>>, i: int)
    ensures
        auto_backups(files).len() <= 14 ==> outdated(files).len() == 0,
        auto_backups(files).len() > 14 ==> outdated(files).len() == auto_backups(files).len() - 14,
        0 <= i < outdated(files).len() ==> {
            let f = outdated(files)[i];
            &&& starts(f.name, "auto_"@)
            &&& ends(f.name, ".db"@)
            &&& forall|k: int|
                0 <= k < 14 ==> (#[trigger] auto_backups(files)[k]).modified >= f.modified
        },
{
    if 0 <= i < outdated(files).len() {
        crate::backup::law_only_old_auto_backups_are_removed(files, i);
    }
}

/// Every backup that was made by itself is counted.
pub proof fn law_auto_backups_are_known(files: Seq<BackupFile<Seq<char>>>, i: int)
    requires
        0 <= i < files.len(),
        starts(files[i].name, "auto_"@),
        ends(files[i].name, ".db"@),
    ensures
        auto_backups(files).contains(files[i]),
{
    let p = |f: BackupFile<Seq<char>>| is_auto_name(f.name);
    let a = lemma_filter_keeps(files, p, i);
    let k = lemma_sorted_has(files.filter(p), newest_first(), a);
    assert(auto_backups(files)[k] == files[i]);
}

/// A backup is made where it is forced, where there is none, and where the
/// newest is at least twenty hours old or its age is not known.
pub proof fn law_backups_are_due(force: bool, any: bool, age_secs: Option<u64>)
    ensures
        force ==> is_due(force, any, age_secs),
        !any ==> is_due(force, any, age_secs),
        age_secs is None ==> is_due(force, any, age_secs),
        !force && any ==> (age_secs matches Some(s) ==> (is_due(force, any, age_secs) <==> s >= 20
            * 60 * 60)),
{
}

/// A backup is restored only where it exists and its check says `ok`, in either
/// case of letters.
pub proof fn law_backups_are_checked(found: bool, check: Seq<char>)
    ensures
        restore_fault(found, check) is None <==> found && same_ignoring_ascii_case(check, "ok"@),
        !found ==> restore_fault(found, check) == Some("backup file not found"@),
        found && !same_ignoring_ascii_case(check, "ok"@) ==> restore_fault(found, check) == Some(
            "backup integrity_check failed: "@ + check,
        ),
{
}

/// A path between quotes has every quote doubled, and nothing else changed.
pub proof fn law_quotes_are_doubled(a: Seq<char>, c: char)
    ensures
        quoted(Seq::empty()) == Seq::<char>::empty(),
        c != '\'' ==> quoted(a.push(c)) == quoted(a).push(c),
        c == '\'' ==> quoted(a.push(c)) == quoted(a).push('\'').push('\''),
{
    reveal_strlit("''");
    assert(a.push(c).drop_last() =~= a);
    assert("''"@ =~= seq!['\'', '\'']);
    assert(quoted(a) + "''"@ =~= quoted(a).push('\'').push('\''));
}

/// The name of a backup tells why it was made, and when.
pub proof fn law_names_of_backups(beginning: Seq<char>, stamp: Seq<char>)
    ensures
        starts(backup_name(beginning, stamp), beginning + stamp),
        ends(backup_name(beginning, stamp), ".db"@),
        backup_name(beginning, stamp).len() == beginning.len() + stamp.len() + 3,
{
    reveal_strlit(".db");
    let n = backup_name(beginning, stamp);
    assert(n.take((beginning + stamp).len() as int) =~= beginning + stamp);
    assert(n.skip(n.len() - 3) =~= ".db"@);
}

// ---------------------------------------------------------------------------
// Files
// ---------------------------------------------------------------------------

/// A name is that of a text file where a dot and `txt`, in either case, stand at
/// its end behind something; any other ending is not.
pub proof fn law_text_files_end_in_txt(a: Seq<char>, e: Seq<char>)
    requires
        a.len() > 0,
        !e.contains('.'),
        a + seq!['.'] + e != ".."@,
    ensures
        is_txt_name(Some(a + seq!['.'] + e)) <==> same_ignoring_ascii_case(e, "txt"@),
        !is_txt_name(Some(e)),
        !is_txt_name(None),
{
    let name = a + seq!['.'] + e;
    lemma_last_dot(a + seq!['.'], e);
    assert(name.skip(a.len() as int + 1) =~= e);
    lemma_no_dot(e);
}

proof fn lemma_last_dot(head: Seq<char>, e: Seq<char>)
    requires
        head.len() > 0,
        head.last() == '.',
        !e.contains('.'),
    ensures
        last_dot(head + e) == head.len() - 1,
    decreases e.len(),
{
    let s = head + e;
    if e.len() > 0 {
        assert(s.last() == e[e.len() - 1]);
        assert(e.contains(e[e.len() - 1]));
        assert(s.drop_last() =~= head + e.drop_last());
        if e.drop_last().contains('.') {
            let k = e.drop_last().index_of('.');
            assert(e[k] == '.');
        }
        lemma_last_dot(head, e.drop_last());
    } else {
        assert(s =~= head);
    }
}

proof fn lemma_no_dot(e: Seq<char>)
    requires
        !e.contains('.'),
    ensures
        last_dot(e) == -1,
    decreases e.len(),
{
    if e.len() > 0 {
        assert(e.contains(e[e.len() - 1]));
        if e.drop_last().contains('.') {
            let k = e.drop_last().index_of('.');
            assert(e[k] == '.');
        }
        lemma_no_dot(e.drop_last());
    }
}

/// The last name of a path is what stands behind its last slash, when slashes at
/// the end are left out.
pub proof fn law_last_names_of_paths(dir: Seq<char>, name: Seq<char>, slashes: Seq<char>)
    requires
        name.len() > 0,
        !name.contains('/'),
        name != "."@,
        name != ".."@,
        forall|i: int| 0 <= i < slashes.len() ==> #[trigger] slashes[i] == '/',
    ensures
        path_name(dir.push('/') + name + slashes) == Some(name),
        path_name(name + slashes) == Some(name),
{
    lemma_last_step(dir.push('/'), name, slashes);
    lemma_last_step(Seq::empty(), name, slashes);
    assert(Seq::<char>::empty() + name + slashes =~= name + slashes);
}

proof fn lemma_last_step(head: Seq<char>, name: Seq<char>, slashes: Seq<char>)
    requires
        head.len() == 0 || head.last() == '/',
        name.len() > 0,
        !name.contains('/'),
        name != "."@,
        forall|i: int| 0 <= i < slashes.len() ==> #[trigger] slashes[i] == '/',
    ensures
        steps(head + name + slashes).len() > 0,
        steps(head + name + slashes).last() == name,
        slashes.len() == 0 ==> pieces(head + name + slashes, is_slash()).last() == name,
    decreases slashes.len(),
{
    reveal(Seq::filter);
    let sep = is_slash();
    let s = head + name + slashes;
    if slashes.len() == 0 {
        assert(s =~= head + name);
        crate::text::lemma_pieces_in_two(head, name, sep);
        crate::text::lemma_pieces_clean(head, sep);
        let open = pieces(head, sep).last();
        assert(open =~= Seq::empty());
        assert(open + name =~= name);
        assert forall|k: int| 0 <= k < name.len() implies !sep(#[trigger] name[k]) by {
            assert(name.contains(name[k]));
        }
        crate::text::lemma_one_piece(name, sep);
        let all = pieces(s, sep);
        assert(all.last() == name);
        assert(is_step()(all.last()));
    } else {
        assert(s.last() == slashes[slashes.len() - 1]);
        assert(s.drop_last() =~= head + name + slashes.drop_last());
        assert forall|i: int| 0 <= i < slashes.drop_last().len() implies #[trigger]
            slashes.drop_last()[i] == '/' by {
            assert(slashes.drop_last()[i] == slashes[i]);
        }
        lemma_last_step(head, name, slashes.drop_last());
        let before = pieces(s.drop_last(), sep);
        let all = pieces(s, sep);
        assert(all == before.push(Seq::empty()));
        assert(all.drop_last() =~= before);
        assert(!is_step()(all.last()));
    }
}

/// A name that is safe as it is stays: one of letters, digits, dots, dashes and
/// underscores that does not begin with a dot, ends in `.txt` and has at most 96
/// characters.
pub proof fn law_safe_names_stay(name: Seq<char>)
    requires
        0 < name.len() <= 96,
        name[0] != '.',
        forall|i: int|
            0 <= i < name.len() ==> is_name_char(#[trigger] name[i]) && !is_white_space(name[i]),
        ends(lowercase(name), ".txt"@),
    ensures
        stored_name(Some(name)) == name,
{
    let none = Seq::<char>::empty();
    assert(!is_white_space(name[0]) && !is_white_space(name[name.len() - 1]));
    law_trimmed_of(none, name, none);
    assert(none + name + none =~= name);
    assert(masked(name) =~= name);
    assert forall|i: int| 0 <= i < name.len() implies #[trigger] name[i] != ' ' by {
        assert(!is_white_space(name[i]));
    }
    lemma_not_replaced(name, ' ', seq!['_']);
    assert(underscored(name) == name);
    assert(without_leading_dots(name) == name);
}

proof fn lemma_not_replaced(s: Seq<char>, c: char, with: Seq<char>)
    requires
        forall|i: int| 0 <= i < s.len() ==> #[trigger] s[i] != c,
    ensures
        replaced(s, c, with) == s,
    decreases s.len(),
{
    if s.len() > 0 {
        let front = s.drop_last();
        assert forall|i: int| 0 <= i < front.len() implies #[trigger] front[i] != c by {
            assert(front[i] == s[i]);
        }
        lemma_not_replaced(front, c, with);
        assert(s[s.len() - 1] != c);
        assert(front.push(s.last()) =~= s);
    } else {
        assert(replaced(s, c, with) =~= s);
    }
}

/// A file is taken where the conversation is named, its name is that of a text
/// file, its size is between one byte and a megabyte, and its text, without
/// characters zero, is not blank nor longer than a megabyte; else it is said
/// what is wrong.
pub proof fn law_uploads_are_checked(
    conversation_id: Seq<char>,
    is_txt: bool,
    size: i64,
    content: Seq<char>,
)
    requires
        !content.contains('\0'),
    ensures
        upload_fault(conversation_id, is_txt, size, content) is None <==> trimmed(
            conversation_id,
        ).len() > 0 && is_txt && 0 < size <= 1048576 && trimmed(content).len() > 0 && encode_utf8(
            content,
        ).len() <= 1048576,
        trimmed(conversation_id).len() == 0 ==> upload_fault(conversation_id, is_txt, size, content)
            == Some("conversation_id cannot be empty"@),
        trimmed(conversation_id).len() > 0 && !is_txt ==> upload_fault(
            conversation_id,
            is_txt,
            size,
            content,
        ) == Some("only .txt files are supported"@),
        trimmed(conversation_id).len() > 0 && is_txt && size > 1048576 ==> upload_fault(
            conversation_id,
            is_txt,
            size,
            content,
        ) == Some("txt file exceeds 1MB limit"@),
        trimmed(conversation_id).len() > 0 && is_txt && size <= 0 ==> upload_fault(
            conversation_id,
            is_txt,
            size,
            content,
        ) == Some("empty file is not allowed"@),
{
    assert forall|i: int| 0 <= i < content.len() implies #[trigger] content[i] != '\0' by {
        assert(content.contains(content[i]));
    }
    lemma_not_replaced(content, '\0', ""@);
}

/// What is stored of a file is its text without characters zero, under a name of
/// its own below the directory of files.
pub proof fn law_uploads_hold_what_was_sent(u: Upload, input: UploadTxtFileInput)
    requires
        is_upload_of(u, input),
        !input.content_text@.contains('\0'),
    ensures
        u.content_text@ == input.content_text@,
        u.file_name@ == trimmed(input.file_name@),
        u.conversation_id@ == trimmed(input.conversation_id@),
        u.file_size == input.file_size,
        starts(u.rel_path@, "data/files/"@),
        ends(u.rel_path@, u.disk_name@),
        u.summary@ == txt_summary(input.content_text@),
{
    let content = input.content_text@;
    assert forall|i: int| 0 <= i < content.len() implies #[trigger] content[i] != '\0' by {
        assert(content.contains(content[i]));
    }
    lemma_not_replaced(content, '\0', ""@);
    let head = "data/files/"@;
    let path = u.rel_path@;
    assert(path.take(head.len() as int) =~= head);
    assert(path.skip(path.len() - u.disk_name@.len()) =~= u.disk_name@);
}

/// The summary of a text begins with its first line that is not blank, or the
/// beginning of that, and has at most 600 characters.
pub proof fn law_summaries_begin_with_the_first_line(content: Seq<char>)
    requires
        filled_lines(content).len() > 0,
    ensures
        txt_summary(content).len() <= 600,
        ({
            let line = filled_lines(content)[0];
            &&& line.len() <= 120 ==> starts(txt_summary(content), line)
            &&& line.len() > 120 ==> starts(txt_summary(content), line.take(120))
        }),
        forall|i: int|
            0 <= i < filled_lines(content).len() <= 6 && (#[trigger] filled_lines(
                content,
            )[i]).len() <= 90 && all_short(filled_lines(content)) ==> has_part(
                txt_summary(content),
                filled_lines(content)[i],
            ),
{
    reveal_strlit(" | ");
    let lines = filled_lines(content);
    let kept = first_lines(lines);
    crate::lines::law_filled_lines(content);
    lemma_first_line(lines, lines.len() as int);
    assert(lines.take(lines.len() as int) =~= lines);
    let first = clipped(lines[0], 120);
    assert(kept[0] == first);
    lemma_joined_starts(kept, " | "@);
    let all = joined(kept, " | "@);
    let s = txt_summary(content);
    assert(all.take(first.len() as int) == first);
    assert(s.take(first.len() as int) =~= first);
    assert forall|i: int| 0 <= i < lines.len() <= 6 && (#[trigger] lines[i]).len() <= 90
        && all_short(lines) implies has_part(s, lines[i]) by {
        lemma_all_first(lines, lines.len() as int);
        assert(kept.contains(lines[i]));
        crate::context_laws::law_joined_has_parts(kept, " | "@, kept.index_of(lines[i]));
        lemma_short_joined(kept, " | "@);
        assert(s == all);
    }
}

/// Lines of at most 90 characters.
pub open spec fn all_short(lines: Seq<Seq<char>>) -> bool {
    forall|i: int| 0 <= i < lines.len() ==> (#[trigger] lines[i]).len() <= 90
}

proof fn lemma_first_line(lines: Seq<Seq<char>>, n: int)
    requires
        0 < n <= lines.len(),
    ensures
        first_lines(lines.take(n)).len() > 0,
        first_lines(lines.take(n))[0] == clipped(lines[0], 120),
    decreases n,
{
    assert(lines.take(n).drop_last() =~= lines.take(n - 1));
    if n > 1 {
        lemma_first_line(lines, n - 1);
    } else {
        assert(lines.take(0) =~= Seq::empty());
    }
}

proof fn lemma_all_first(lines: Seq<Seq<char>>, n: int)
    requires
        0 <= n <= lines.len() <= 6,
        all_short(lines),
    ensures
        first_lines(lines.take(n)).len() <= n,
        all_short(first_lines(lines.take(n))),
        forall|i: int| 0 <= i < n ==> first_lines(lines.take(n)).contains(#[trigger] lines[i]),
        n == lines.len() ==> lines.take(n) == lines,
    decreases n,
{
    assert(n == lines.len() ==> lines.take(n) =~= lines);
    if n > 0 {
        lemma_all_first(lines, n - 1);
        assert(lines.take(n).drop_last() =~= lines.take(n - 1));
        let before = first_lines(lines.take(n - 1));
        let all = first_lines(lines.take(n));
        assert(lines[n - 1].len() <= 90);
        assert forall|x: Seq<char>| before.contains(x) implies #[trigger] all.contains(x) by {
            assert(all[before.index_of(x)] == x);
        }
        assert forall|i: int| 0 <= i < n implies all.contains(#[trigger] lines[i]) by {
            if i == n - 1 && !before.contains(lines[i]) {
                assert(all[before.len() as int] == lines[i]);
            }
        }
        assert forall|i: int| 0 <= i < all.len() implies (#[trigger] all[i]).len() <= 90 by {
            if i < before.len() {
                assert(all[i] == before[i]);
            }
        }
    }
}

proof fn lemma_joined_starts(parts: Seq<Seq<char>>, sep: Seq<char>)
    requires
        parts.len() > 0,
    ensures
        joined(parts, sep).len() >= parts[0].len(),
        joined(parts, sep).take(parts[0].len() as int) == parts[0],
    decreases parts.len(),
{
    if parts.len() == 1 {
        assert(parts[0].take(parts[0].len() as int) =~= parts[0]);
    } else {
        let front = parts.drop_last();
        lemma_joined_starts(front, sep);
        assert(front[0] == parts[0]);
        assert(joined(parts, sep).take(parts[0].len() as int) =~= joined(front, sep).take(
            parts[0].len() as int,
        ));
    }
}

proof fn lemma_short_joined(parts: Seq<Seq<char>>, sep: Seq<char>)
    requires
        all_short(parts),
        sep.len() <= 3,
    ensures
        joined(parts, sep).len() <= 93 * parts.len(),
    decreases parts.len(),
{
    if parts.len() == 1 {
        assert(parts[0].len() <= 90);
    } else if parts.len() > 1 {
        let front = parts.drop_last();
        assert(all_short(front)) by {
            assert forall|i: int| 0 <= i < front.len() implies (#[trigger] front[i]).len() <= 90 by {
                assert(front[i] == parts[i]);
            }
        }
        lemma_short_joined(front, sep);
        assert(parts[parts.len() - 1].len() <= 90);
    }
}

/// The text of a file is asked for where a file is spoken of and its wording is
/// wanted; neither alone is enough.
pub proof fn law_wording_is_asked_for(text: Seq<char>, lower: Seq<char>)
    ensures
        ({
            let file = has_part(lower, "txt"@) || has_part(lower, "file"@) || has_part(
                text,
                "文件"@,
            ) || has_part(text, "附件"@);
            let wording = has_part(lower, "full text"@) || has_part(lower, "original text"@)
                || has_part(lower, "verbatim"@) || has_part(lower, "quote"@) || has_part(
                text,
                "原文"@,
            ) || has_part(text, "全文"@) || has_part(text, "逐字"@) || has_part(text, "引用"@)
                || has_part(text, "完整内容"@) || has_part(text, "文件内容"@);
            &&& file && wording ==> wants_raw_text(text, lower)
            &&& !file ==> !wants_raw_text(text, lower)
            &&& !wording ==> !wants_raw_text(text, lower)
        }),
{
}

/// A character that is not safe in a name becomes an underscore; letters,
/// digits, dots, dashes, underscores and blanks stay.
pub proof fn law_unsafe_characters_are_replaced(s: Seq<char>, i: int)
    requires
        0 <= i < s.len(),
    ensures
        masked(s).len() == s.len(),
        is_name_char(s[i]) || s[i] == ' ' ==> masked(s)[i] == s[i],
        !is_name_char(s[i]) && s[i] != ' ' ==> masked(s)[i] == '_',
        s[i] == '.' || s[i] == '-' || s[i] == '_' ==> is_name_char(s[i]),
{
}

/// A name without the ending of a text file gets it.
pub proof fn law_names_get_the_ending(name: Seq<char>)
    requires
        0 < name.len() <= 92,
        name[0] != '.',
        forall|i: int|
            0 <= i < name.len() ==> is_name_char(#[trigger] name[i]) && !is_white_space(name[i]),
        !ends(lowercase(name), ".txt"@),
    ensures
        stored_name(Some(name)) == name + ".txt"@,
        stored_name(None) == stored_name(Some("upload.txt"@)),
{
    reveal_strlit(".txt");
    let none = Seq::<char>::empty();
    assert(!is_white_space(name[0]) && !is_white_space(name[name.len() - 1]));
    law_trimmed_of(none, name, none);
    assert(none + name + none =~= name);
    assert(masked(name) =~= name);
    assert forall|i: int| 0 <= i < name.len() implies #[trigger] name[i] != ' ' by {
        assert(!is_white_space(name[i]));
    }
    lemma_not_replaced(name, ' ', seq!['_']);
    assert(underscored(name) == name);
    assert((name + ".txt"@)[0] == name[0]);
    assert(without_leading_dots(name + ".txt"@) == name + ".txt"@);
}

/// A path that goes up at its end names no file.
pub proof fn law_paths_that_go_up(dir: Seq<char>, slashes: Seq<char>)
    requires
        forall|i: int| 0 <= i < slashes.len() ==> #[trigger] slashes[i] == '/',
    ensures
        path_name(dir.push('/') + ".."@ + slashes) is None,
        path_name(Seq::empty()) is None,
{
    reveal_strlit("..");
    reveal_strlit(".");
    let up = ".."@;
    assert(up.len() != "."@.len());
    if up.contains('/') {
        let k = up.index_of('/');
        assert(up[k] == '/');
    }
    lemma_last_step(dir.push('/'), up, slashes);
    reveal_with_fuel(Seq::filter, 2);
    let none = pieces(Seq::<char>::empty(), is_slash());
    assert(none.drop_last() =~= Seq::empty());
    assert(steps(Seq::empty()) =~= Seq::empty());
}

/// Where no address was set, that of the provider is stored; a provider of the
/// user's own has none.
pub proof fn law_stored_addresses(s: ChatSettings<Seq<char>>, provider: Seq<char>)
    requires
        trimmed(s.base_url).len() == 0,
    ensures
        provider == "custom"@ ==> storable(s, provider).base_url.len() == 0,
        provider == "openai"@ ==> storable(s, provider).base_url == "https://api.openai.com/v1"@,
        provider == "openrouter"@ ==> storable(s, provider).base_url
            == "https://openrouter.ai/api/v1"@,
        provider == "ollama"@ ==> storable(s, provider).base_url == "http://127.0.0.1:11434/v1"@,
        provider == "deepseek"@ ==> storable(s, provider).base_url == "https://api.deepseek.com"@,
{
    law_addresses_of_providers(provider, s.base_url);
    reveal_strlit("deepseek");
    reveal_strlit("openai");
    reveal_strlit("openrouter");
    reveal_strlit("ollama");
    reveal_strlit("custom");
    assert("deepseek"@[0] == 'd' && "openai"@.len() == 6 && "openai"@[1] == 'p'
        && "openrouter"@.len() == 10 && "ollama"@.len() == 6 && "ollama"@[1] == 'l'
        && "custom"@[0] == 'c');
}

/// In a search `%` stands for any text and `_` for any character.
pub proof fn law_wildcards(s: Seq<char>, c: char)
    ensures
        crate::pattern::like(seq!['%'], s),
        crate::pattern::like(seq!['_'], seq![c]),
        !crate::pattern::like(seq!['_'], Seq::empty()),
        c != '%' && c != '_' ==> crate::pattern::like(seq![c], seq![c]),
    decreases s.len(),
{
    reveal_with_fuel(crate::pattern::like, 3);
    let any = seq!['%'];
    assert(any.skip(1) =~= Seq::empty());
    assert(seq!['_'].skip(1) =~= Seq::<char>::empty());
    assert(seq![c].skip(1) =~= Seq::<char>::empty());
    if s.len() > 0 {
        law_wildcards(s.skip(1), c);
    }
}

/// A file is stored under an identifier of its own, an underscore and a safe
/// name.
pub proof fn law_disk_names(s: Seq<char>, file_name: Seq<char>)
    requires
        crate::uploads::is_disk_name(s, file_name),
    ensures
        s.len() > 33,
        s[32] == '_',
        crate::files::is_safe_name(s.skip(33)),
        crate::files::is_portable(file_name) ==> s.skip(33) == stored_name(path_name(file_name)),
{
    reveal_strlit("_");
    let (id, component) = choose|id: Seq<char>, component: Option<Seq<char>>|
        {
            &&& crate::stamps::is_simple_uuid(id)
            &&& crate::files::is_portable(file_name) ==> component == path_name(file_name)
            &&& crate::files::is_safe_name(stored_name(component))
            &&& s == #[trigger] crate::uploads::stored_as(id, stored_name(component))
        };
    assert(s.skip(33) =~= stored_name(component));
}

/// Characters zero are left out of the text of a file, and nothing else is.
pub proof fn law_zeros_are_left_out(u: Upload, input: UploadTxtFileInput)
    requires
        is_upload_of(u, input),
    ensures
        u.content_text@ == input.content_text@.filter(|c: char| c != '\0'),
        !u.content_text@.contains('\0'),
{
    let keep = |c: char| c != '\0';
    let s = input.content_text@;
    lemma_zeros(s);
    let r = s.filter(keep);
    if r.contains('\0') {
        let j = crate::db::soundness::lemma_filter_member(s, keep, r.index_of('\0'));
        assert(keep(s[j]));
    }
}

proof fn lemma_zeros(s: Seq<char>)
    ensures
        replaced(s, '\0', ""@) == s.filter(|c: char| c != '\0'),
    decreases s.len(),
{
    reveal(Seq::filter);
    reveal_strlit("");
    if s.len() > 0 {
        lemma_zeros(s.drop_last());
        let front = replaced(s.drop_last(), '\0', ""@);
        assert(front + ""@ =~= front);
    } else {
        assert(replaced(s, '\0', ""@) =~= s.filter(|c: char| c != '\0'));
    }
}

} // verus!
