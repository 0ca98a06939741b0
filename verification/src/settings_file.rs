//! The settings as they are kept in a file beside the database.
use vstd::prelude::*;
use crate::db::chat_settings::{chat_pairs, offered_models, pair_texts, storable};
use crate::db::{Database, Tables};
use crate::json::{
    add_member, array_value, as_items, as_members, as_text, get, items_of_tree, json_read, member,
    members_of_tree, object_value, opt_texts, pair_trees, text_of_tree, text_value, texts_json,
    texts_of_json, trees, try_parse, Json, JsonTree,
};
use crate::models::ChatSettings;
use crate::settings::{
    api_key_setting, cfg_key, normalize_provider, normalize_theme_mode, provider_name, theme_name,
};
use crate::stamps::{is_time_text, now_iso};
use crate::text::{is_blank, opt_str, opt_text, text_eq, texts, trim, trimmed};

verus! {

// ---------------------------------------------------------------------------
// Writing
// ---------------------------------------------------------------------------

/// What the file holds.
#[derive(Debug)]
pub struct SettingsFile {
    pub chat: ChatSettings,
    pub models: Vec<String>,
    pub last_conversation_id: String,
    pub theme_mode: String,
    /// The keys of providers.
    pub api_keys: Vec<(String, String)>,
}

/// The providers whose keys are always written.
pub open spec fn known_providers() -> Seq<Seq<char>> {
    seq!["deepseek"@, "openai"@, "openrouter"@, "ollama"@, "custom"@]
}

/// The providers whose keys are written when this one is used.
pub open spec fn written_providers(used: Seq<char>) -> Seq<Seq<char>> {
    if known_providers().contains(used) {
        known_providers()
    } else {
        known_providers().push(used)
    }
}

impl Tables {
    /// The keys that are written when a provider is used.
    pub open spec fn written_keys(self, used: Seq<char>) -> Seq<(Seq<char>, Seq<char>)> {
        let list = written_providers(used);
        Seq::new(
            list.len(),
            |i: int| (list[i], self.setting_or(api_key_setting(list[i]), ""@)),
        )
    }
}

/// The providers whose keys are written when this one is used.
fn list_providers(used: &str) -> (r: Vec<String>)
    ensures
        texts(r@) == written_providers(used@),
{
    let mut list: Vec<String> = Vec::new();
    list.push("deepseek".to_owned());
    list.push("openai".to_owned());
    list.push("openrouter".to_owned());
    list.push("ollama".to_owned());
    list.push("custom".to_owned());
    assert(texts(list@) =~= known_providers());
    let mut known = false;
    for i in 0..list.len()
        invariant
            texts(list@) == known_providers(),
            known ==> known_providers().contains(used@),
            !known ==> forall|k: int| 0 <= k < i ==> #[trigger] known_providers()[k] != used@,
    {
        assert(texts(list@)[i as int] == list@[i as int]@);
        if text_eq(&list[i], used) {
            assert(known_providers()[i as int] == used@);
            known = true;
        }
    }
    if !known {
        list.push(used.to_owned());
        assert(texts(list@) =~= known_providers().push(used@));
    }
    list
}

impl Database {
    /// What is written to the file, given the bits of the temperature.
    pub fn settings_snapshot(&self, temperature: u32) -> (r: SettingsFile)
        ensures
            ({
                let chat = self@.chat_in_use(temperature);
                &&& r.chat@ == chat
                &&& texts(r.models@) == self@.models_on_offer()
                &&& r.last_conversation_id@ == self@.setting_or("last_conversation_id"@, ""@)
                &&& r.theme_mode@ == self@.setting_or("theme_mode"@, "system"@)
                &&& pair_texts(r.api_keys@) == self@.written_keys(provider_name(chat.provider))
            }),
    {
        let chat = self.get_chat_settings(temperature);
        let provider = normalize_provider(&chat.provider);
        let list = list_providers(&provider);
        let mut api_keys: Vec<(String, String)> = Vec::new();
        let ghost all = self@.written_keys(provider@);
        for i in 0..list.len()
            invariant
                texts(list@) == written_providers(provider@),
                all == self@.written_keys(provider@),
                pair_texts(api_keys@) == all.take(i as int),
        {
            assert(texts(list@)[i as int] == list@[i as int]@);
            let value = self.get_setting(&cfg_key(&list[i]), "");
            let name = list[i].clone();
            let ghost next = pair_texts(api_keys@).push((name@, value@));
            api_keys.push((name, value));
            assert(pair_texts(api_keys@) =~= next);
            assert(all.take(i + 1) =~= next);
        }
        assert(all.take(all.len() as int) =~= all);
        SettingsFile {
            chat,
            models: self.get_models(),
            last_conversation_id: self.get_setting("last_conversation_id", ""),
            theme_mode: self.get_setting("theme_mode", "system"),
            api_keys,
        }
    }
}

/// The settings of the chat as the file holds them.
pub open spec fn chat_tree(c: ChatSettings<Seq<char>>) -> JsonTree {
    JsonTree::Object(
        seq![
            ("provider"@, JsonTree::Text(c.provider)),
            ("base_url"@, JsonTree::Text(c.base_url)),
            ("model"@, JsonTree::Text(c.model)),
            ("temperature"@, JsonTree::Real(c.temperature)),
            ("max_tokens"@, JsonTree::Number(Some(c.max_tokens))),
            ("max_context_tokens"@, JsonTree::Number(Some(c.max_context_tokens))),
            ("max_recent_messages"@, JsonTree::Number(Some(c.max_recent_messages))),
            ("max_memory_items"@, JsonTree::Number(Some(c.max_memory_items))),
            ("txt_max_file_bytes"@, JsonTree::Number(Some(c.txt_max_file_bytes))),
        ],
    )
}

/// Texts as a list.
pub open spec fn texts_tree(list: Seq<Seq<char>>) -> JsonTree {
    JsonTree::Array(Seq::new(list.len(), |i: int| JsonTree::Text(list[i])))
}

/// Texts under their keys as an object.
pub open spec fn pairs_tree(pairs: Seq<(Seq<char>, Seq<char>)>) -> JsonTree {
    JsonTree::Object(Seq::new(pairs.len(), |i: int| (pairs[i].0, JsonTree::Text(pairs[i].1))))
}

impl Tables {
    /// The models that are offered.
    pub open spec fn models_on_offer(self) -> Seq<Seq<char>> {
        offered_models(texts_of_json(self.setting_or("models"@, "[]"@)))
    }

    /// The value that is written to the file.
    pub open spec fn settings_tree(self, temperature: u32) -> JsonTree {
        let chat = self.chat_in_use(temperature);
        JsonTree::Object(
            seq![
                ("chat"@, chat_tree(chat)),
                ("models"@, texts_tree(self.models_on_offer())),
                (
                    "last_conversation_id"@,
                    JsonTree::Text(self.setting_or("last_conversation_id"@, ""@)),
                ),
                ("theme_mode"@, JsonTree::Text(self.setting_or("theme_mode"@, "system"@))),
                ("api_keys"@, pairs_tree(self.written_keys(provider_name(chat.provider)))),
            ],
        )
    }
}

/// The settings of the chat as the file holds them.
fn chat_value(c: &ChatSettings) -> (r: Json)
    ensures
        r@ == chat_tree(c@),
{
    let mut v: Vec<(String, Json)> = Vec::new();
    add_member(&mut v, "provider", text_value(&c.provider));
    add_member(&mut v, "base_url", text_value(&c.base_url));
    add_member(&mut v, "model", text_value(&c.model));
    add_member(&mut v, "temperature", Json::Real(c.temperature));
    add_member(&mut v, "max_tokens", Json::Number(Some(c.max_tokens)));
    add_member(&mut v, "max_context_tokens", Json::Number(Some(c.max_context_tokens)));
    add_member(&mut v, "max_recent_messages", Json::Number(Some(c.max_recent_messages)));
    add_member(&mut v, "max_memory_items", Json::Number(Some(c.max_memory_items)));
    add_member(&mut v, "txt_max_file_bytes", Json::Number(Some(c.txt_max_file_bytes)));
    assert(pair_trees(v@) =~= chat_tree(c@)->Object_0);
    object_value(v)
}

/// Texts as a list.
fn texts_value(list: &Vec<String>) -> (r: Json)
    ensures
        r@ == texts_tree(texts(list@)),
{
    let mut v: Vec<Json> = Vec::new();
    for i in 0..list.len()
        invariant
            trees(v@) == Seq::new(i as nat, |k: int| JsonTree::Text(texts(list@)[k])),
    {
        let ghost had = trees(v@);
        let item = text_value(&list[i]);
        v.push(item);
        assert(trees(v@) =~= had.push(item@));
        assert(trees(v@) =~= Seq::new((i + 1) as nat, |k: int| JsonTree::Text(texts(list@)[k])));
    }
    assert(trees(v@) =~= texts_tree(texts(list@))->Array_0);
    array_value(v)
}

/// Texts under their keys as an object.
fn pairs_value(pairs: &Vec<(String, String)>) -> (r: Json)
    ensures
        r@ == pairs_tree(pair_texts(pairs@)),
{
    let mut v: Vec<(String, Json)> = Vec::new();
    let ghost all = pairs_tree(pair_texts(pairs@))->Object_0;
    for i in 0..pairs.len()
        invariant
            all == pairs_tree(pair_texts(pairs@))->Object_0,
            pair_trees(v@) == all.take(i as int),
    {
        add_member(&mut v, &pairs[i].0, text_value(&pairs[i].1));
        assert(pair_trees(v@) =~= all.take(i + 1));
    }
    assert(all.take(all.len() as int) =~= all);
    object_value(v)
}

impl Database {
    /// The value that is written to the file, given the bits of the temperature.
    pub fn settings_document(&self, temperature: u32) -> (r: Json)
        ensures
            r@ == self@.settings_tree(temperature),
    {
        let f = self.settings_snapshot(temperature);
        let mut v: Vec<(String, Json)> = Vec::new();
        add_member(&mut v, "chat", chat_value(&f.chat));
        add_member(&mut v, "models", texts_value(&f.models));
        add_member(&mut v, "last_conversation_id", text_value(&f.last_conversation_id));
        add_member(&mut v, "theme_mode", text_value(&f.theme_mode));
        add_member(&mut v, "api_keys", pairs_value(&f.api_keys));
        assert(pair_trees(v@) =~= self@.settings_tree(temperature)->Object_0);
        object_value(v)
    }
}

// ---------------------------------------------------------------------------
// Reading
// ---------------------------------------------------------------------------

/// What was read from the file; what it does not hold, or not in the right
/// form, is missing.
#[derive(Debug)]
pub struct StoredSettings {
    pub chat: Option<ChatSettings>,
    /// The text of the temperature.
    pub temperature: String,
    pub last_conversation_id: Option<String>,
    pub theme_mode: Option<String>,
    pub models: Option<Vec<String>>,
    /// The keys that are texts.
    pub api_keys: Vec<(String, String)>,
}

/// What was read from the file, over mathematical sequences.
#[verifier::ext_equal]
pub struct StoredView {
    pub chat: Option<ChatSettings<Seq<char>>>,
    pub temperature: Seq<char>,
    pub last_conversation_id: Option<Seq<char>>,
    pub theme_mode: Option<Seq<char>>,
    pub models: Option<Seq<Seq<char>>>,
    pub api_keys: Seq<(Seq<char>, Seq<char>)>,
}

/// The view of optional settings of the chat.
pub open spec fn chat_view(chat: Option<ChatSettings>) -> Option<ChatSettings<Seq<char>>> {
    match chat {
        Some(c) => Some(c@),
        None => None,
    }
}

impl View for StoredSettings {
    type V = StoredView;

    open spec fn view(&self) -> StoredView {
        StoredView {
            chat: chat_view(self.chat),
            temperature: self.temperature@,
            last_conversation_id: opt_text(self.last_conversation_id),
            theme_mode: opt_text(self.theme_mode),
            models: opt_texts(self.models),
            api_keys: pair_texts(self.api_keys@),
        }
    }
}

/// The texts that the items of a list are; nothing where one is no text.
pub open spec fn all_texts(items: Seq<JsonTree>) -> Option<Seq<Seq<char>>> {
    if forall|i: int| 0 <= i < items.len() ==> (#[trigger] items[i]) is Text {
        Some(Seq::new(items.len(), |i: int| items[i]->Text_0))
    } else {
        None
    }
}

/// The members of an object that are texts.
pub open spec fn text_members(pairs: Seq<(Seq<char>, JsonTree)>) -> Seq<(Seq<char>, Seq<char>)>
    decreases pairs.len(),
{
    if pairs.len() == 0 {
        Seq::empty()
    } else {
        let before = text_members(pairs.drop_last());
        match pairs.last().1 {
            JsonTree::Text(s) => before.push((pairs.last().0, s)),
            _ => before,
        }
    }
}

/// What is taken from the value that the file holds: the settings of the chat
/// where it has them and they could be read, two texts, a list of texts and
/// those keys of providers that are texts.
pub open spec fn picked(
    root: JsonTree,
    chat: Option<ChatSettings<Seq<char>>>,
    temperature: Seq<char>,
) -> StoredView {
    StoredView {
        chat: if member(root, "chat"@) is Some {
            chat
        } else {
            None
        },
        temperature,
        last_conversation_id: text_of_tree(member(root, "last_conversation_id"@)),
        theme_mode: text_of_tree(member(root, "theme_mode"@)),
        models: match items_of_tree(member(root, "models"@)) {
            Some(items) => all_texts(items),
            None => None,
        },
        api_keys: match members_of_tree(member(root, "api_keys"@)) {
            Some(pairs) => text_members(pairs),
            None => Seq::empty(),
        },
    }
}

/// The texts that the items of a list are; nothing where one is no text.
fn list_texts(items: &Vec<Json>) -> (r: Option<Vec<String>>)
    ensures
        opt_texts(r) == all_texts(trees(items@)),
{
    let ghost all = trees(items@);
    let mut list: Vec<String> = Vec::new();
    for i in 0..items.len()
        invariant
            all == trees(items@),
            forall|k: int| 0 <= k < i ==> (#[trigger] all[k]) is Text,
            texts(list@) == Seq::new(i as nat, |k: int| all[k]->Text_0),
    {
        assert(all[i as int] == items@[i as int]@);
        match &items[i] {
            Json::Text(s) => {
                let ghost had = texts(list@);
                list.push(s.clone());
                assert(texts(list@) =~= had.push(s@));
                assert(texts(list@) =~= Seq::new((i + 1) as nat, |k: int| all[k]->Text_0));
            },
            _ => {
                return None;
            },
        }
    }
    assert(texts(list@) =~= Seq::new(all.len(), |k: int| all[k]->Text_0));
    Some(list)
}

/// The members of an object that are texts.
fn list_text_members(pairs: &Vec<(String, Json)>) -> (r: Vec<(String, String)>)
    ensures
        pair_texts(r@) == text_members(pair_trees(pairs@)),
{
    let ghost all = pair_trees(pairs@);
    let mut list: Vec<(String, String)> = Vec::new();
    assert(pair_texts(list@) =~= Seq::empty());
    for i in 0..pairs.len()
        invariant
            all == pair_trees(pairs@),
            pair_texts(list@) == text_members(all.take(i as int)),
    {
        assert(all.take(i + 1).drop_last() =~= all.take(i as int));
        assert(all[i as int] == (pairs@[i as int].0@, pairs@[i as int].1@));
        if let Json::Text(s) = &pairs[i].1 {
            let ghost had = pair_texts(list@);
            let name = pairs[i].0.clone();
            let value = s.clone();
            let ghost one = (name@, value@);
            list.push((name, value));
            assert(pair_texts(list@) =~= had.push(one));
        }
    }
    assert(all.take(all.len() as int) =~= all);
    list
}

/// A copy of an optional text.
fn own(s: Option<&str>) -> (r: Option<String>)
    ensures
        opt_text(r) == opt_str(s),
{
    match s {
        Some(t) => Some(t.to_owned()),
        None => None,
    }
}

/// What is taken from the value that the file holds, given what its member
/// `chat` was read as, with the text of the temperature in it.
pub fn plan_settings(root: &Json, chat: Option<ChatSettings>, temperature: &str) -> (r:
    StoredSettings)
    ensures
        r@ == picked(root@, chat_view(chat), temperature@),
{
    let held = get(root, "chat").is_some();
    let models = match as_items(get(root, "models")) {
        Some(items) => list_texts(items),
        None => None,
    };
    let api_keys = match as_members(get(root, "api_keys")) {
        Some(pairs) => list_text_members(pairs),
        None => Vec::new(),
    };
    assert(members_of_tree(member(root@, "api_keys"@)) is None ==> pair_texts(api_keys@)
        =~= Seq::empty());
    StoredSettings {
        chat: if held {
            chat
        } else {
            None
        },
        temperature: temperature.to_owned(),
        last_conversation_id: own(as_text(get(root, "last_conversation_id"))),
        theme_mode: own(as_text(get(root, "theme_mode"))),
        models,
        api_keys,
    }
}

/// The keys and values that are stored for keys of providers; blank ones are
/// passed over.
pub open spec fn key_pairs(keys: Seq<(Seq<char>, Seq<char>)>) -> Seq<(Seq<char>, Seq<char>)>
    decreases keys.len(),
{
    if keys.len() == 0 {
        Seq::empty()
    } else {
        let before = key_pairs(keys.drop_last());
        if is_blank(keys.last().1) {
            before
        } else {
            before.push((api_key_setting(keys.last().0), trimmed(keys.last().1)))
        }
    }
}

/// What is stored behind the settings of the chat.
pub open spec fn further_pairs(f: StoredView) -> Seq<(Seq<char>, Seq<char>)> {
    (match f.last_conversation_id {
        Some(id) => seq![("last_conversation_id"@, id)],
        None => Seq::empty(),
    }) + (match f.theme_mode {
        Some(m) => seq![("theme_mode"@, theme_name(m))],
        None => Seq::empty(),
    }) + (match f.models {
        Some(l) => if l.len() == 0 {
            Seq::empty()
        } else {
            seq![("models"@, texts_json(l))]
        },
        None => Seq::empty(),
    }) + key_pairs(f.api_keys)
}

/// All keys and values that are stored when the file was read.
pub open spec fn stored_pairs(f: StoredView) -> Seq<(Seq<char>, Seq<char>)> {
    (match f.chat {
        Some(c) => chat_pairs(storable(c, provider_name(c.provider)), f.temperature),
        None => Seq::empty(),
    }) + further_pairs(f)
}

/// All keys and values that are stored for the value that the file holds.
pub open spec fn file_pairs(
    root: JsonTree,
    chat: Option<ChatSettings<Seq<char>>>,
    temperature: Seq<char>,
) -> Seq<(Seq<char>, Seq<char>)> {
    stored_pairs(picked(root, chat, temperature))
}

/// Values stored one row after the other are values stored in one row.
pub proof fn lemma_rows(
    t: Tables,
    a: Seq<(Seq<char>, Seq<char>)>,
    b: Seq<(Seq<char>, Seq<char>)>,
    now: Seq<char>,
)
    ensures
        t.with_settings(a, now).with_settings(b, now) == t.with_settings(a + b, now),
    decreases b.len(),
{
    if b.len() == 0 {
        assert(a + b =~= a);
    } else {
        lemma_rows(t, a, b.drop_last(), now);
        assert((a + b).drop_last() =~= a + b.drop_last());
    }
}

proof fn lemma_one(t: Tables, key: Seq<char>, value: Seq<char>, now: Seq<char>)
    ensures
        t.with_setting(key, value, now) == t.with_settings(seq![(key, value)], now),
{
    reveal_with_fuel(Tables::with_settings, 2);
    assert(seq![(key, value)].drop_last() =~= Seq::empty());
}

impl Database {
    /// Stores what was read from the file, at `now`.
    pub fn apply_settings_file_at(&mut self, f: &StoredSettings, now: &str)
        ensures
            final(self)@ == old(self)@.with_settings(stored_pairs(f@), now@),
    {
        let ghost before = self@;
        let ghost mut done: Seq<(Seq<char>, Seq<char>)> = Seq::empty();
        if let Some(c) = &f.chat {
            let provider = normalize_provider(&c.provider);
            self.store_chat_settings(c, &provider, &f.temperature, now);
            proof {
                done = chat_pairs(storable(c@, provider_name(c@.provider)), f.temperature@);
            }
        }
        assert(self@ == before.with_settings(done, now@));
        let ghost p1 = done;
        let ghost mut more: Seq<(Seq<char>, Seq<char>)> = Seq::empty();
        if let Some(id) = &f.last_conversation_id {
            self.set_setting_at("last_conversation_id", id, now);
            proof {
                more = seq![("last_conversation_id"@, id@)];
                lemma_one(before.with_settings(p1, now@), "last_conversation_id"@, id@, now@);
            }
        }
        let ghost p2 = p1 + more;
        proof {
            lemma_rows(before, p1, more, now@);
            assert(p1 + Seq::<(Seq<char>, Seq<char>)>::empty() =~= p1);
            more = Seq::empty();
        }
        assert(self@ == before.with_settings(p2, now@));
        if let Some(m) = &f.theme_mode {
            let mode = normalize_theme_mode(m);
            self.set_setting_at("theme_mode", mode, now);
            proof {
                more = seq![("theme_mode"@, theme_name(m@))];
                lemma_one(before.with_settings(p2, now@), "theme_mode"@, mode@, now@);
            }
        }
        let ghost p3 = p2 + more;
        proof {
            lemma_rows(before, p2, more, now@);
            assert(p2 + Seq::<(Seq<char>, Seq<char>)>::empty() =~= p2);
            more = Seq::empty();
        }
        assert(self@ == before.with_settings(p3, now@));
        if let Some(l) = &f.models {
            if l.len() > 0 {
                self.set_models_at(l, now);
                proof {
                    more = seq![("models"@, texts_json(texts(l@)))];
                    lemma_one(
                        before.with_settings(p3, now@),
                        "models"@,
                        texts_json(texts(l@)),
                        now@,
                    );
                }
            }
        }
        let ghost p4 = p3 + more;
        proof {
            lemma_rows(before, p3, more, now@);
            assert(p3 + Seq::<(Seq<char>, Seq<char>)>::empty() =~= p3);
        }
        assert(self@ == before.with_settings(p4, now@));
        let ghost all = pair_texts(f.api_keys@);
        assert(key_pairs(all.take(0)) =~= Seq::empty());
        assert(p4 + key_pairs(all.take(0)) =~= p4);
        for i in 0..f.api_keys.len()
            invariant
                all == pair_texts(f.api_keys@),
                self@ == before.with_settings(p4 + key_pairs(all.take(i as int)), now@),
        {
            let ghost had = key_pairs(all.take(i as int));
            assert(all.take(i + 1).drop_last() =~= all.take(i as int));
            assert(all[i as int] == (f.api_keys@[i as int].0@, f.api_keys@[i as int].1@));
            let key = trim(&f.api_keys[i].1);
            if !key.as_str().is_empty() {
                let name = cfg_key(&f.api_keys[i].0);
                self.set_setting_at(&name, &key, now);
                proof {
                    lemma_one(before.with_settings(p4 + had, now@), name@, key@, now@);
                    lemma_rows(before, p4 + had, seq![(name@, key@)], now@);
                    assert(p4 + had + seq![(name@, key@)] =~= p4 + had.push((name@, key@)));
                }
            }
        }
        assert(all.take(all.len() as int) =~= all);
        assert(p4 + key_pairs(all) =~= stored_pairs(f@));
    }

    /// Stores what was read from the file.
    pub fn apply_settings_file(&mut self, f: &StoredSettings)
        ensures
            exists|now: Seq<char>|
                is_time_text(now) && final(self)@ == #[trigger] old(self)@.with_settings(
                    stored_pairs(f@),
                    now,
                ),
    {
        let now = now_iso();
        self.apply_settings_file_at(f, &now);
        assert(self@ == old(self)@.with_settings(stored_pairs(f@), now@));
    }
}

/// Stores what the text of the file holds, at `now`, given what its member
/// `chat` was read as, with the text of the temperature in it.
pub fn load_settings_text_at(
    db: &mut Database,
    raw: &str,
    chat: Option<ChatSettings>,
    temperature: &str,
    now: &str,
) -> (r: Result<(), String>)
    ensures
        match json_read(raw@) {
            Err(e) => (r matches Err(x) && x@ == e) && final(db)@ == old(db)@,
            Ok(root) => r is Ok && final(db)@ == old(db)@.with_settings(
                file_pairs(root, chat_view(chat), temperature@),
                now@,
            ),
        },
{
    match try_parse(raw) {
        Ok(root) => {
            let f = plan_settings(&root, chat, temperature);
            db.apply_settings_file_at(&f, now);
            Ok(())
        },
        Err(e) => Err(e),
    }
}

/// Stores what the text of the file holds, given what its member `chat` was
/// read as, with the text of the temperature in it.
pub fn load_settings_text(
    db: &mut Database,
    raw: &str,
    chat: Option<ChatSettings>,
    temperature: &str,
) -> (r: Result<(), String>)
    ensures
        match json_read(raw@) {
            Err(e) => (r matches Err(x) && x@ == e) && final(db)@ == old(db)@,
            Ok(root) => r is Ok && exists|now: Seq<char>|
                is_time_text(now) && final(db)@ == #[trigger] old(db)@.with_settings(
                    file_pairs(root, chat_view(chat), temperature@),
                    now,
                ),
        },
{
    let now = now_iso();
    load_settings_text_at(db, raw, chat, temperature, &now)
}

} // verus!
