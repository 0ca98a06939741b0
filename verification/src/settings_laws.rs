//! What reading the settings file gives back of what was written to it.
use vstd::prelude::*;
use crate::db::chat_settings::{
    chat_pairs, law_chat_settings_read_back, law_setting_reads_back, storable,
};
use crate::db::Tables;
use crate::json::{law_first_member, member, members_of_tree, texts_json, JsonTree};
use crate::settings::{api_key_setting, default_model_names, provider_name, theme_name};
use crate::settings_file::{
    all_texts, file_pairs, further_pairs, key_pairs, lemma_rows, pairs_tree, picked, stored_pairs,
    text_members, texts_tree, written_providers, StoredView,
};
use crate::text::{is_blank, trimmed};

verus! {

/// Values stored under other keys do not change the value under this one.
proof fn lemma_other_keys(
    t: Tables,
    pairs: Seq<(Seq<char>, Seq<char>)>,
    now: Seq<char>,
    key: Seq<char>,
)
    requires
        forall|i: int| 0 <= i < pairs.len() ==> (#[trigger] pairs[i]).0 != key,
    ensures
        t.with_settings(pairs, now).setting(key) == t.setting(key),
    decreases pairs.len(),
{
    if pairs.len() > 0 {
        let front = pairs.drop_last();
        assert forall|i: int| 0 <= i < front.len() implies (#[trigger] front[i]).0 != key by {
            assert(front[i] == pairs[i]);
        }
        lemma_other_keys(t, front, now, key);
        assert(pairs[pairs.len() - 1].0 != key);
        law_setting_reads_back(
            t.with_settings(front, now),
            pairs.last().0,
            pairs.last().1,
            now,
        );
    }
}

/// The keys of providers are stored under keys that begin alike.
proof fn lemma_key_pairs(keys: Seq<(Seq<char>, Seq<char>)>)
    ensures
        forall|i: int|
            0 <= i < key_pairs(keys).len() ==> (#[trigger] key_pairs(keys)[i]).0.len() > 0
                && key_pairs(keys)[i].0[0] == 'a',
    decreases keys.len(),
{
    if keys.len() > 0 {
        lemma_key_pairs(keys.drop_last());
        reveal_strlit("api_key_");
        let before = key_pairs(keys.drop_last());
        let name = api_key_setting(keys.last().0);
        assert("api_key_"@[0] == 'a');
        assert(name.len() > 0 && name[0] == 'a');
        let all = key_pairs(keys);
        assert forall|i: int| 0 <= i < all.len() implies (#[trigger] all[i]).0.len() > 0
            && all[i].0[0] == 'a' by {
            if i < before.len() {
                assert(all[i] == before[i]);
            }
        }
    }
}

/// The key is none under which anything is stored behind the settings of the
/// chat.
proof fn lemma_not_further(f: StoredView, key: Seq<char>)
    requires
        key.len() > 0,
        key[0] != 'a',
        key != "last_conversation_id"@,
        key != "theme_mode"@,
        key != "models"@,
    ensures
        forall|i: int|
            0 <= i < further_pairs(f).len() ==> (#[trigger] further_pairs(f)[i]).0 != key,
{
    lemma_key_pairs(f.api_keys);
    let tail = key_pairs(f.api_keys);
    let all = further_pairs(f);
    let n = all.len() - tail.len();
    assert forall|i: int| 0 <= i < all.len() implies (#[trigger] all[i]).0 != key by {
        if i >= n {
            assert(all[i] == tail[i - n]);
        }
    }
}

/// The settings of the chat that a file holds are those that are used after it
/// was read.
pub proof fn law_settings_file_restores_chat(t: Tables, f: StoredView, now: Seq<char>)
    ensures
        match f.chat {
            Some(c) => {
                let provider = provider_name(c.provider);
                let after = t.with_settings(stored_pairs(f), now);
                &&& after.setting("provider"@) == Some(provider)
                &&& after.setting("temperature"@) == Some(f.temperature)
                &&& after.chat_settings(provider, c.temperature) == storable(c, provider)
            },
            None => true,
        },
{
    match f.chat {
        Some(c) => {
            let provider = provider_name(c.provider);
            let first = chat_pairs(storable(c, provider), f.temperature);
            let rest = further_pairs(f);
            lemma_rows(t, first, rest, now);
            let mid = t.with_settings(first, now);
            let after = t.with_settings(stored_pairs(f), now);
            law_chat_settings_read_back(t, c, provider, f.temperature, now);
            lemma_chat_keys_are_no_others();
            lemma_not_further(f, "provider"@);
            lemma_other_keys(mid, rest, now, "provider"@);
            lemma_not_further(f, "temperature"@);
            lemma_other_keys(mid, rest, now, "temperature"@);
            lemma_not_further(f, "base_url"@);
            lemma_other_keys(mid, rest, now, "base_url"@);
            lemma_not_further(f, "model"@);
            lemma_other_keys(mid, rest, now, "model"@);
            lemma_not_further(f, "max_tokens"@);
            lemma_other_keys(mid, rest, now, "max_tokens"@);
            lemma_not_further(f, "max_context_tokens"@);
            lemma_other_keys(mid, rest, now, "max_context_tokens"@);
            lemma_not_further(f, "max_recent_messages"@);
            lemma_other_keys(mid, rest, now, "max_recent_messages"@);
            lemma_not_further(f, "max_memory_items"@);
            lemma_other_keys(mid, rest, now, "max_memory_items"@);
            assert(after.chat_settings(provider, c.temperature) == mid.chat_settings(
                provider,
                c.temperature,
            ));
        },
        None => {},
    }
}

/// The keys of the settings of the chat are none of the others.
proof fn lemma_chat_keys_are_no_others()
    ensures
        forall|i: int|
            0 <= i < chat_keys().len() ==> {
                let key = #[trigger] chat_keys()[i];
                &&& key.len() > 0
                &&& key[0] != 'a'
                &&& key != "last_conversation_id"@
                &&& key != "theme_mode"@
                &&& key != "models"@
            },
        chat_keys()[0] == "provider"@,
        chat_keys()[1] == "base_url"@,
        chat_keys()[2] == "model"@,
        chat_keys()[3] == "temperature"@,
        chat_keys()[4] == "max_tokens"@,
        chat_keys()[5] == "max_context_tokens"@,
        chat_keys()[6] == "max_recent_messages"@,
        chat_keys()[7] == "max_memory_items"@,
{
    reveal_strlit("provider");
    reveal_strlit("base_url");
    reveal_strlit("model");
    reveal_strlit("temperature");
    reveal_strlit("max_tokens");
    reveal_strlit("max_context_tokens");
    reveal_strlit("max_recent_messages");
    reveal_strlit("max_memory_items");
    reveal_strlit("last_conversation_id");
    reveal_strlit("theme_mode");
    reveal_strlit("models");
    assert("last_conversation_id"@[0] == 'l' && "theme_mode"@[0] == 't' && "theme_mode"@[1] == 'h'
        && "models"@[0] == 'm' && "models"@[1] == 'o' && "models"@.len() == 6);
    assert("provider"@[0] == 'p' && "base_url"@[0] == 'b' && "temperature"@[0] == 't'
        && "temperature"@[1] == 'e' && "model"@.len() == 5 && "model"@[0] == 'm');
    assert("max_tokens"@[0] == 'm' && "max_context_tokens"@[0] == 'm'
        && "max_recent_messages"@[0] == 'm' && "max_memory_items"@[0] == 'm');
    assert("max_tokens"@[1] == 'a' && "max_context_tokens"@[1] == 'a' && "max_recent_messages"@[1]
        == 'a' && "max_memory_items"@[1] == 'a');
}

/// The keys of the settings of the chat.
pub open spec fn chat_keys() -> Seq<Seq<char>> {
    seq![
        "provider"@,
        "base_url"@,
        "model"@,
        "temperature"@,
        "max_tokens"@,
        "max_context_tokens"@,
        "max_recent_messages"@,
        "max_memory_items"@,
    ]
}

/// The members of the value that is written.
proof fn lemma_written_members(t: Tables, temperature: u32)
    ensures
        ({
            let doc = t.settings_tree(temperature);
            let all = doc->Object_0;
            &&& member(doc, "chat"@) == Some(all[0].1)
            &&& member(doc, "models"@) == Some(all[1].1)
            &&& member(doc, "last_conversation_id"@) == Some(all[2].1)
            &&& member(doc, "theme_mode"@) == Some(all[3].1)
            &&& member(doc, "api_keys"@) == Some(all[4].1)
        }),
{
    let all = t.settings_tree(temperature)->Object_0;
    reveal_strlit("chat");
    reveal_strlit("models");
    reveal_strlit("last_conversation_id");
    reveal_strlit("theme_mode");
    reveal_strlit("api_keys");
    assert(all[0].0[0] == 'c' && all[1].0[0] == 'm' && all[2].0[0] == 'l' && all[3].0[0] == 't'
        && all[4].0[0] == 'a');
    law_first_member(all, "chat"@, 0);
    law_first_member(all, "models"@, 1);
    law_first_member(all, "last_conversation_id"@, 2);
    law_first_member(all, "theme_mode"@, 3);
    law_first_member(all, "api_keys"@, 4);
}

/// A key whose every stored value is the same has that value at the end.
proof fn lemma_settled(
    t: Tables,
    pairs: Seq<(Seq<char>, Seq<char>)>,
    now: Seq<char>,
    key: Seq<char>,
    value: Seq<char>,
    at: int,
)
    requires
        0 <= at < pairs.len(),
        pairs[at].0 == key,
        forall|i: int|
            0 <= i < pairs.len() && (#[trigger] pairs[i]).0 == key ==> pairs[i].1 == value,
    ensures
        t.with_settings(pairs, now).setting(key) == Some(value),
    decreases pairs.len(),
{
    let front = pairs.drop_last();
    law_setting_reads_back(t.with_settings(front, now), pairs.last().0, pairs.last().1, now);
    assert(pairs.last() == pairs[pairs.len() - 1]);
    if pairs.last().0 != key {
        assert(front[at] == pairs[at]);
        assert forall|i: int|
            0 <= i < front.len() && (#[trigger] front[i]).0 == key implies front[i].1
            == value by {
            assert(front[i] == pairs[i]);
        }
        lemma_settled(t, front, now, key, value, at);
    }
}

/// A text among the members comes from a member.
proof fn lemma_text_member(pairs: Seq<(Seq<char>, JsonTree)>, i: int)
    requires
        0 <= i < text_members(pairs).len(),
    ensures
        pairs.contains((text_members(pairs)[i].0, JsonTree::Text(text_members(pairs)[i].1))),
    decreases pairs.len(),
{
    let front = pairs.drop_last();
    let one = text_members(pairs)[i];
    if i < text_members(front).len() {
        assert(one == text_members(front)[i]);
        lemma_text_member(front, i);
        let j = front.index_of((one.0, JsonTree::Text(one.1)));
        assert(pairs[j] == front[j]);
    } else {
        assert(pairs[pairs.len() - 1] == (one.0, JsonTree::Text(one.1)));
    }
}

/// A member that is a text is among the texts.
proof fn lemma_member_text(pairs: Seq<(Seq<char>, JsonTree)>, j: int)
    requires
        0 <= j < pairs.len(),
        pairs[j].1 is Text,
    ensures
        text_members(pairs).contains((pairs[j].0, pairs[j].1->Text_0)),
    decreases pairs.len(),
{
    let front = pairs.drop_last();
    let one = (pairs[j].0, pairs[j].1->Text_0);
    let all = text_members(pairs);
    if j < front.len() {
        assert(front[j] == pairs[j]);
        lemma_member_text(front, j);
        let i = text_members(front).index_of(one);
        assert(all[i] == text_members(front)[i]);
    } else {
        assert(all[all.len() - 1] == one);
    }
}

/// A stored key of a provider comes from one that is not blank.
proof fn lemma_key_pair_from(keys: Seq<(Seq<char>, Seq<char>)>, i: int) -> (j: int)
    requires
        0 <= i < key_pairs(keys).len(),
    ensures
        0 <= j < keys.len(),
        !is_blank(keys[j].1),
        key_pairs(keys)[i] == (api_key_setting(keys[j].0), trimmed(keys[j].1)),
    decreases keys.len(),
{
    let front = keys.drop_last();
    if i < key_pairs(front).len() {
        assert(key_pairs(keys)[i] == key_pairs(front)[i]);
        let j = lemma_key_pair_from(front, i);
        assert(front[j] == keys[j]);
        j
    } else {
        keys.len() - 1
    }
}

/// A key of a provider that is not blank is stored.
proof fn lemma_key_pair_at(keys: Seq<(Seq<char>, Seq<char>)>, j: int) -> (i: int)
    requires
        0 <= j < keys.len(),
        !is_blank(keys[j].1),
    ensures
        0 <= i < key_pairs(keys).len(),
        key_pairs(keys)[i] == (api_key_setting(keys[j].0), trimmed(keys[j].1)),
    decreases keys.len(),
{
    let front = keys.drop_last();
    if j < front.len() {
        assert(front[j] == keys[j]);
        let i = lemma_key_pair_at(front, j);
        assert(key_pairs(keys)[i] == key_pairs(front)[i]);
        i
    } else {
        key_pairs(keys).len() - 1
    }
}

/// Both objects have the same members, in any order.
pub open spec fn same_members(a: Option<JsonTree>, b: Option<JsonTree>) -> bool {
    match (members_of_tree(a), members_of_tree(b)) {
        (Some(x), Some(y)) => forall|m: (Seq<char>, JsonTree)|
            #[trigger] x.contains(m) == y.contains(m),
        _ => false,
    }
}

/// A value holds what the written one does: settings of the chat, the same
/// conversation, theme and models, and the same keys of providers in any order.
pub open spec fn holds_same(root: JsonTree, doc: JsonTree) -> bool {
    &&& (member(root, "chat"@) is Some) == (member(doc, "chat"@) is Some)
    &&& member(root, "models"@) == member(doc, "models"@)
    &&& member(root, "last_conversation_id"@) == member(doc, "last_conversation_id"@)
    &&& member(root, "theme_mode"@) == member(doc, "theme_mode"@)
    &&& same_members(member(root, "api_keys"@), member(doc, "api_keys"@))
}

/// What is taken from a value that holds what the written one does.
proof fn lemma_picked(
    t: Tables,
    bits: u32,
    temperature: Seq<char>,
    root: JsonTree,
)
    requires
        holds_same(root, t.settings_tree(bits)),
    ensures
        ({
            let f = picked(root, Some(t.chat_in_use(bits)), temperature);
            let keys = t.written_keys(provider_name(t.chat_in_use(bits).provider));
            &&& f.chat == Some(t.chat_in_use(bits))
            &&& f.temperature == temperature
            &&& f.last_conversation_id == Some(t.setting_or("last_conversation_id"@, ""@))
            &&& f.theme_mode == Some(t.setting_or("theme_mode"@, "system"@))
            &&& f.models == Some(t.models_on_offer())
            &&& forall|i: int| 0 <= i < f.api_keys.len() ==> keys.contains(#[trigger] f.api_keys[i])
            &&& forall|j: int| 0 <= j < keys.len() ==> f.api_keys.contains(#[trigger] keys[j])
        }),
{
    let doc = t.settings_tree(bits);
    lemma_written_members(t, bits);
    let f = picked(root, Some(t.chat_in_use(bits)), temperature);
    let keys = t.written_keys(provider_name(t.chat_in_use(bits).provider));
    let list = t.models_on_offer();
    let items = texts_tree(list)->Array_0;
    assert forall|i: int| 0 <= i < items.len() implies (#[trigger] items[i]) is Text by {}
    assert(all_texts(items)->0 =~= list);
    let x = members_of_tree(member(root, "api_keys"@))->0;
    let y = pairs_tree(keys)->Object_0;
    assert(members_of_tree(member(doc, "api_keys"@)) == Some(y));
    assert forall|i: int| 0 <= i < f.api_keys.len() implies keys.contains(
        #[trigger] f.api_keys[i],
    ) by {
        lemma_text_member(x, i);
        let m = (f.api_keys[i].0, JsonTree::Text(f.api_keys[i].1));
        assert(x.contains(m) == y.contains(m));
        let j = y.index_of(m);
        assert(keys[j] == f.api_keys[i]);
    }
    assert forall|j: int| 0 <= j < keys.len() implies f.api_keys.contains(#[trigger] keys[j]) by {
        let m = (keys[j].0, JsonTree::Text(keys[j].1));
        assert(y[j] == m);
        assert(x.contains(m) == y.contains(m));
        let k = x.index_of(m);
        lemma_member_text(x, k);
    }
}

/// Settings that were written to the file are those in use after it was read
/// into any database: the settings of the chat as they are stored, the
/// conversation, the theme, the models and every key of a provider that is not
/// blank. Where a key is blank, what was stored before stays.
pub proof fn law_settings_file_reads_back(
    t: Tables,
    u: Tables,
    bits: u32,
    temperature: Seq<char>,
    root: JsonTree,
    now: Seq<char>,
)
    requires
        holds_same(root, t.settings_tree(bits)),
    ensures
        ({
            let chat = t.chat_in_use(bits);
            let provider = provider_name(chat.provider);
            let after = u.with_settings(file_pairs(root, Some(chat), temperature), now);
            &&& after.setting("provider"@) == Some(provider)
            &&& after.setting("temperature"@) == Some(temperature)
            &&& after.chat_settings(provider, bits) == storable(chat, provider)
            &&& after.setting("last_conversation_id"@) == Some(
                t.setting_or("last_conversation_id"@, ""@),
            )
            &&& after.setting("theme_mode"@) == Some(
                theme_name(t.setting_or("theme_mode"@, "system"@)),
            )
            &&& after.setting("models"@) == Some(texts_json(t.models_on_offer()))
            &&& forall|p: Seq<char>| #[trigger]
                written_providers(provider).contains(p) ==> {
                    let name = api_key_setting(p);
                    let key = t.setting_or(name, ""@);
                    after.setting(name) == if is_blank(key) {
                        u.setting(name)
                    } else {
                        Some(trimmed(key))
                    }
                }
        }),
{
    let chat = t.chat_in_use(bits);
    let provider = provider_name(chat.provider);
    let f = picked(root, Some(chat), temperature);
    lemma_picked(t, bits, temperature, root);
    law_settings_file_restores_chat(u, f, now);
    let pairs = stored_pairs(f);
    let after = u.with_settings(pairs, now);
    let first = chat_pairs(storable(chat, provider), temperature);
    let tail = key_pairs(f.api_keys);
    let n = first.len() as int;
    let last = t.setting_or("last_conversation_id"@, ""@);
    let theme = theme_name(t.setting_or("theme_mode"@, "system"@));
    let list = t.models_on_offer();
    assert(default_model_names().len() > 0);
    assert(list.len() > 0);
    assert(pairs =~= first + seq![
        ("last_conversation_id"@, last),
        ("theme_mode"@, theme),
        ("models"@, texts_json(list)),
    ] + tail);
    lemma_chat_keys_are_no_others();
    assert forall|i: int| 0 <= i < n implies {
        let key = (#[trigger] pairs[i]).0;
        &&& key.len() > 0
        &&& key[0] != 'a'
        &&& key != "last_conversation_id"@
        &&& key != "theme_mode"@
        &&& key != "models"@
    } by {
        assert(pairs[i].0 == chat_keys()[i]);
    }
    lemma_key_pairs(f.api_keys);
    assert forall|i: int| n + 3 <= i < pairs.len() implies (#[trigger] pairs[i]).0.len() > 0
        && pairs[i].0[0] == 'a' by {
        assert(pairs[i] == tail[i - n - 3]);
    }
    reveal_strlit("last_conversation_id");
    reveal_strlit("theme_mode");
    reveal_strlit("models");
    assert("last_conversation_id"@[0] == 'l' && "theme_mode"@[0] == 't' && "models"@[0] == 'm');
    assert(pairs[n] == ("last_conversation_id"@, last));
    assert(pairs[n + 1] == ("theme_mode"@, theme));
    assert(pairs[n + 2] == ("models"@, texts_json(list)));
    assert forall|i: int| 0 <= i < pairs.len() && (#[trigger] pairs[i]).0
        == "last_conversation_id"@ implies i == n by {}
    lemma_settled(u, pairs, now, "last_conversation_id"@, last, n);
    assert forall|i: int| 0 <= i < pairs.len() && (#[trigger] pairs[i]).0
        == "theme_mode"@ implies i == n + 1 by {}
    lemma_settled(u, pairs, now, "theme_mode"@, theme, n + 1);
    assert forall|i: int| 0 <= i < pairs.len() && (#[trigger] pairs[i]).0
        == "models"@ implies i == n + 2 by {}
    lemma_settled(u, pairs, now, "models"@, texts_json(list), n + 2);
    let keys = t.written_keys(provider);
    assert forall|p: Seq<char>| #[trigger] written_providers(provider).contains(p) implies {
        let name = api_key_setting(p);
        let key = t.setting_or(name, ""@);
        after.setting(name) == if is_blank(key) {
            u.setting(name)
        } else {
            Some(trimmed(key))
        }
    } by {
        let name = api_key_setting(p);
        let key = t.setting_or(name, ""@);
        reveal_strlit("api_key_");
        assert("api_key_"@[0] == 'a');
        assert(name.len() > 0 && name[0] == 'a');
        assert forall|i: int| 0 <= i < pairs.len() && (#[trigger] pairs[i]).0 == name implies
            !is_blank(key) && pairs[i].1 == trimmed(key) by {
            assert(pairs[i] == tail[i - n - 3]);
            let j = lemma_key_pair_from(f.api_keys, i - n - 3);
            assert(keys.contains(f.api_keys[j]));
        }
        if is_blank(key) {
            lemma_other_keys(u, pairs, now, name);
        } else {
            let k = written_providers(provider).index_of(p);
            assert(keys[k] == (p, key));
            assert(f.api_keys.contains(keys[k]));
            let j = f.api_keys.index_of(keys[k]);
            let i = lemma_key_pair_at(f.api_keys, j);
            assert(pairs[i + n + 3] == tail[i]);
            lemma_settled(u, pairs, now, name, trimmed(key), i + n + 3);
        }
    }
}

/// The file holds the settings that are in use, each under its name, and the
/// keys of the known providers and of the one in use under theirs.
pub proof fn law_the_file_holds_the_settings(t: Tables, bits: u32)
    ensures
        ({
            let doc = t.settings_tree(bits);
            let chat = t.chat_in_use(bits);
            &&& member(doc, "chat"@) matches Some(c) && {
                &&& member(c, "provider"@) == Some(JsonTree::Text(chat.provider))
                &&& member(c, "base_url"@) == Some(JsonTree::Text(chat.base_url))
                &&& member(c, "model"@) == Some(JsonTree::Text(chat.model))
                &&& member(c, "temperature"@) == Some(JsonTree::Real(bits))
                &&& member(c, "max_tokens"@) == Some(JsonTree::Number(Some(chat.max_tokens)))
                &&& member(c, "max_context_tokens"@) == Some(
                    JsonTree::Number(Some(chat.max_context_tokens)),
                )
                &&& member(c, "max_recent_messages"@) == Some(
                    JsonTree::Number(Some(chat.max_recent_messages)),
                )
                &&& member(c, "max_memory_items"@) == Some(
                    JsonTree::Number(Some(chat.max_memory_items)),
                )
            }
            &&& member(doc, "last_conversation_id"@) == Some(
                JsonTree::Text(t.setting_or("last_conversation_id"@, ""@)),
            )
            &&& member(doc, "theme_mode"@) == Some(
                JsonTree::Text(t.setting_or("theme_mode"@, "system"@)),
            )
            &&& member(doc, "models"@) matches Some(JsonTree::Array(items)) && {
                &&& items.len() == t.models_on_offer().len()
                &&& forall|i: int|
                    0 <= i < items.len() ==> #[trigger] items[i] == JsonTree::Text(
                        t.models_on_offer()[i],
                    )
            }
        }),
{
    lemma_written_members(t, bits);
    let c = t.settings_tree(bits)->Object_0[0].1->Object_0;
    reveal_strlit("provider");
    reveal_strlit("base_url");
    reveal_strlit("model");
    reveal_strlit("temperature");
    reveal_strlit("max_tokens");
    reveal_strlit("max_context_tokens");
    reveal_strlit("max_recent_messages");
    reveal_strlit("max_memory_items");
    assert(c[0].0 == "provider"@ && c[1].0 == "base_url"@ && c[2].0 == "model"@ && c[3].0
        == "temperature"@ && c[4].0 == "max_tokens"@ && c[5].0 == "max_context_tokens"@ && c[6].0
        == "max_recent_messages"@ && c[7].0 == "max_memory_items"@);
    assert("provider"@.len() == 8 && "base_url"@.len() == 8 && "base_url"@[0] == 'b'
        && "provider"@[0] == 'p' && "model"@.len() == 5 && "temperature"@.len() == 11
        && "max_tokens"@.len() == 10 && "max_context_tokens"@.len() == 18
        && "max_recent_messages"@.len() == 19 && "max_memory_items"@.len() == 16);
    law_first_member(c, "provider"@, 0);
    law_first_member(c, "base_url"@, 1);
    law_first_member(c, "model"@, 2);
    law_first_member(c, "temperature"@, 3);
    law_first_member(c, "max_tokens"@, 4);
    law_first_member(c, "max_context_tokens"@, 5);
    law_first_member(c, "max_recent_messages"@, 6);
    law_first_member(c, "max_memory_items"@, 7);
}

/// The keys that are written are those of the five known providers, and that of
/// the one in use where it is another, as they are stored.
pub proof fn law_the_file_holds_the_keys(t: Tables, used: Seq<char>, p: Seq<char>)
    requires
        p == "deepseek"@ || p == "openai"@ || p == "openrouter"@ || p == "ollama"@ || p
            == "custom"@ || p == used,
    ensures
        t.written_keys(used).contains((p, t.setting_or(api_key_setting(p), ""@))),
        5 <= t.written_keys(used).len() <= 6,
{
    let known = crate::settings_file::known_providers();
    assert(known[0] == "deepseek"@ && known[1] == "openai"@ && known[2] == "openrouter"@ && known[3]
        == "ollama"@ && known[4] == "custom"@);
    let list = written_providers(used);
    let all = t.written_keys(used);
    assert(list.contains(p)) by {
        if known.contains(p) {
            assert(list[known.index_of(p)] == p);
        } else {
            assert(list[5] == p);
        }
    }
    let k = list.index_of(p);
    assert(all[k] == (p, t.setting_or(api_key_setting(p), ""@)));
}

/// What is read from the file is stored under the names that the settings have.
pub proof fn law_read_settings_are_stored(f: StoredView, id: Seq<char>, mode: Seq<char>)
    requires
        f.chat is None,
        f.models is None,
        f.api_keys.len() == 0,
        f.last_conversation_id == Some(id),
        f.theme_mode == Some(mode),
    ensures
        stored_pairs(f) == seq![
            ("last_conversation_id"@, id),
            ("theme_mode"@, theme_name(mode)),
        ],
{
    assert(stored_pairs(f) =~= seq![
        ("last_conversation_id"@, id),
        ("theme_mode"@, theme_name(mode)),
    ]);
}

} // verus!
