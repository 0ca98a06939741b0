//! The settings of the program.
use vstd::prelude::*;
use crate::db::{Database, Tables};
use crate::json::{opt_texts, read_texts, texts_json, texts_of_json, write_texts};
use crate::models::{ChatSettings, Setting};
use crate::numbers::{decimal, law_decimal_reads_back, parse_i64, parsed, show_i64};
use crate::settings::{
    default_base_url_for_provider, default_model_names, default_models, natural_or,
    natural_or_default, normalize_provider, positive_or, positive_or_default, provider_name,
    stored_base_url, MAX_TXT_FILE_BYTES,
};
use crate::sorting::views;
use crate::stamps::{is_time_text, now_iso};
use crate::table::{change_rows, changed, find_row, first_row, first_where, lemma_first_where};
use crate::text::{blank, is_blank, law_trimmed_stays, text_eq, texts, trim, trimmed};

verus! {

// ---------------------------------------------------------------------------
// Single settings
// ---------------------------------------------------------------------------

/// The setting has this key.
pub open spec fn has_key(key: Seq<char>) -> spec_fn(Setting<Seq<char>>) -> bool {
    |s: Setting<Seq<char>>| s.key == key
}

impl Tables {
    /// The value stored under a key.
    pub open spec fn setting(self, key: Seq<char>) -> Option<Seq<char>> {
        match first_row(self.settings, has_key(key)) {
            Some(s) => Some(s.value),
            None => None,
        }
    }

    /// The value stored under a key, else `default`.
    pub open spec fn setting_or(self, key: Seq<char>, default: Seq<char>) -> Seq<char> {
        match self.setting(key) {
            Some(v) => v,
            None => default,
        }
    }

    /// What is stored after a value was stored under a key.
    pub open spec fn with_setting(self, key: Seq<char>, value: Seq<char>, now: Seq<char>) -> Tables {
        Tables {
            settings: if self.setting(key) is Some {
                changed(
                    self.settings,
                    has_key(key),
                    |s: Setting<Seq<char>>| Setting { value, updated_at: now, ..s },
                )
            } else {
                self.settings.push(Setting { key, value, updated_at: now })
            },
            ..self
        }
    }

    /// What is stored after values were stored under their keys, one by one.
    pub open spec fn with_settings(self, pairs: Seq<(Seq<char>, Seq<char>)>, now: Seq<char>) -> Tables
        decreases pairs.len(),
    {
        if pairs.len() == 0 {
            self
        } else {
            self.with_settings(pairs.drop_last(), now).with_setting(
                pairs.last().0,
                pairs.last().1,
                now,
            )
        }
    }

    /// What is stored after values were stored under those keys that had none.
    pub open spec fn with_defaults(self, pairs: Seq<(Seq<char>, Seq<char>)>, now: Seq<char>) -> Tables
        decreases pairs.len(),
    {
        if pairs.len() == 0 {
            self
        } else {
            let before = self.with_defaults(pairs.drop_last(), now);
            if before.setting(pairs.last().0) is Some {
                before
            } else {
                before.with_setting(pairs.last().0, pairs.last().1, now)
            }
        }
    }
}

/// A stored value is read back, and no other value changes.
pub proof fn law_setting_reads_back(t: Tables, key: Seq<char>, value: Seq<char>, now: Seq<char>)
    ensures
        t.with_setting(key, value, now).setting(key) == Some(value),
        forall|other: Seq<char>|
            other != key ==> #[trigger] t.with_setting(key, value, now).setting(other)
                == t.setting(other),
{
    let after = t.with_setting(key, value, now);
    let p = has_key(key);
    lemma_first_where(t.settings, p);
    lemma_first_where(after.settings, p);
    if t.setting(key) is Some {
        let i = first_where(t.settings, p)->0;
        assert(after.settings[i].key == key);
        let j = first_where(after.settings, p)->0;
        assert(t.settings[j].key == key);
    } else {
        assert(after.settings.last().key == key);
        let j = first_where(after.settings, p)->0;
        if j < t.settings.len() {
            assert(after.settings[j] == t.settings[j]);
        }
    }
    assert forall|other: Seq<char>| other != key implies #[trigger] after.setting(other)
        == t.setting(other) by {
        let q = has_key(other);
        lemma_first_where(t.settings, q);
        lemma_first_where(after.settings, q);
        match first_where(after.settings, q) {
            Some(j) => {
                assert(after.settings[j].key == other);
                assert(t.settings[j].key == other);
                let i = first_where(t.settings, q)->0;
                assert(t.settings[i].key == other);
                assert(after.settings[i].key == other);
                assert(i == j);
            },
            None => {
                match first_where(t.settings, q) {
                    Some(i) => {
                        assert(after.settings[i].key == other);
                    },
                    None => {},
                }
            },
        }
    }
}

/// The keys and values of a list of pairs.
pub open spec fn pair_texts(s: Seq<(String, String)>) -> Seq<(Seq<char>, Seq<char>)> {
    Seq::new(s.len(), |i: int| (s[i].0@, s[i].1@))
}

impl Database {
    /// The position of the value stored under a key.
    fn find_setting(&self, key: &str) -> (r: Option<usize>)
        ensures
            match r {
                Some(i) => i < self.settings.len() && self@.setting(key@) == Some(
                    self.settings@[i as int]@.value,
                ),
                None => self@.setting(key@) is None,
            },
    {
        find_row(
            &self.settings,
            |s: &Setting| -> (r: bool)
                ensures
                    r == (s@.key == key@)
                { text_eq(&s.key, key) },
            Ghost(has_key(key@)),
        )
    }

    /// The value stored under a key, else `default`.
    pub fn get_setting(&self, key: &str, default: &str) -> (r: String)
        ensures
            r@ == self@.setting_or(key@, default@),
    {
        match self.find_setting(key) {
            Some(i) => self.settings[i].value.clone(),
            None => default.to_owned(),
        }
    }

    /// Stores a value under a key at `now`.
    pub fn set_setting_at(&mut self, key: &str, value: &str, now: &str)
        ensures
            final(self)@ == old(self)@.with_setting(key@, value@, now@),
    {
        let ghost before = self@;
        if self.find_setting(key).is_some() {
            change_rows(
                &mut self.settings,
                |s: &Setting| -> (r: bool)
                    ensures
                        r == (s@.key == key@)
                    { text_eq(&s.key, key) },
                |s: &Setting| -> (r: Setting)
                    ensures
                        r@ == (Setting { value: value@, updated_at: now@, ..s@ })
                    {
                        Setting {
                            key: s.key.clone(),
                            value: value.to_owned(),
                            updated_at: now.to_owned(),
                        }
                    },
                Ghost(has_key(key@)),
                Ghost(|s: Setting<Seq<char>>| Setting { value: value@, updated_at: now@, ..s }),
            );
        } else {
            let s = Setting {
                key: key.to_owned(),
                value: value.to_owned(),
                updated_at: now.to_owned(),
            };
            let ghost next = before.settings.push(s@);
            self.settings.push(s);
            assert(views(self.settings@) =~= next);
        }
    }

    /// Stores a value under a key.
    pub fn set_setting(&mut self, key: &str, value: &str)
        ensures
            exists|now: Seq<char>|
                is_time_text(now) && final(self)@ == #[trigger] old(self)@.with_setting(
                    key@,
                    value@,
                    now,
                ),
    {
        let now = now_iso();
        self.set_setting_at(key, value, &now)
    }

    /// Stores values under their keys at `now`.
    fn set_settings_at(&mut self, pairs: &Vec<(String, String)>, now: &str)
        ensures
            final(self)@ == old(self)@.with_settings(pair_texts(pairs@), now@),
    {
        let ghost before = self@;
        let ghost all = pair_texts(pairs@);
        for i in 0..pairs.len()
            invariant
                all == pair_texts(pairs@),
                self@ == before.with_settings(all.take(i as int), now@),
        {
            assert(all.take(i + 1).drop_last() =~= all.take(i as int));
            self.set_setting_at(&pairs[i].0, &pairs[i].1, now);
        }
        assert(all.take(all.len() as int) =~= all);
    }

    /// Stores values under those keys that have none, at `now`.
    fn set_defaults_at(&mut self, pairs: &Vec<(String, String)>, now: &str)
        ensures
            final(self)@ == old(self)@.with_defaults(pair_texts(pairs@), now@),
    {
        let ghost before = self@;
        let ghost all = pair_texts(pairs@);
        for i in 0..pairs.len()
            invariant
                all == pair_texts(pairs@),
                self@ == before.with_defaults(all.take(i as int), now@),
        {
            assert(all.take(i + 1).drop_last() =~= all.take(i as int));
            if self.find_setting(&pairs[i].0).is_none() {
                self.set_setting_at(&pairs[i].0, &pairs[i].1, now);
            }
        }
        assert(all.take(all.len() as int) =~= all);
    }
}

// ---------------------------------------------------------------------------
// Models
// ---------------------------------------------------------------------------

/// The models that a list read from the settings offers.
pub open spec fn offered_models(list: Option<Seq<Seq<char>>>) -> Seq<Seq<char>> {
    match list {
        Some(l) => if l.len() == 0 {
            default_model_names()
        } else {
            l
        },
        None => default_model_names(),
    }
}

/// The models that a list read from the settings offers.
pub fn offer_models(list: Option<Vec<String>>) -> (r: Vec<String>)
    ensures
        texts(r@) == offered_models(opt_texts(list)),
{
    match list {
        Some(l) => if l.len() == 0 {
            default_models()
        } else {
            l
        },
        None => default_models(),
    }
}

impl Database {
    /// The models that are offered: those that were stored, where there are
    /// any.
    pub fn get_models(&self) -> (r: Vec<String>)
        ensures
            texts(r@) == offered_models(texts_of_json(self@.setting_or("models"@, "[]"@))),
            forall|list: Seq<Seq<char>>|
                self@.setting("models"@) == Some(#[trigger] texts_json(list)) ==> texts(r@)
                    == offered_models(Some(list)),
    {
        let raw = self.get_setting("models", "[]");
        offer_models(read_texts(&raw))
    }

    /// Stores the models that are offered, at `now`.
    pub fn set_models_at(&mut self, models: &Vec<String>, now: &str)
        ensures
            final(self)@ == old(self)@.with_setting("models"@, texts_json(texts(models@)), now@),
            final(self)@.setting("models"@) == Some(texts_json(texts(models@))),
    {
        let text = write_texts(models);
        self.set_setting_at("models", &text, now);
        proof {
            law_setting_reads_back(old(self)@, "models"@, text@, now@);
        }
    }

    /// Stores the models that are offered.
    pub fn set_models(&mut self, models: &Vec<String>)
        ensures
            exists|now: Seq<char>|
                is_time_text(now) && final(self)@ == #[trigger] old(self)@.with_setting(
                    "models"@,
                    texts_json(texts(models@)),
                    now,
                ),
            final(self)@.setting("models"@) == Some(texts_json(texts(models@))),
    {
        let now = now_iso();
        self.set_models_at(models, &now)
    }
}

// ---------------------------------------------------------------------------
// The settings of the chat
// ---------------------------------------------------------------------------

/// A stored number; `default` where none was stored or it cannot be read.
pub open spec fn stored_number(text: Seq<char>, default: int) -> int {
    match parsed(text) {
        Some(n) => n,
        None => default,
    }
}

/// `text`, or `default` where it is blank.
pub open spec fn filled_or(text: Seq<char>, default: Seq<char>) -> Seq<char> {
    if is_blank(text) {
        default
    } else {
        text
    }
}

impl Tables {
    /// The settings of the chat, given the provider and the temperature.
    pub open spec fn chat_settings(self, provider: Seq<char>, temperature: u32) -> ChatSettings<
        Seq<char>,
    > {
        ChatSettings {
            provider,
            base_url: filled_or(
                self.setting_or("base_url"@, stored_base_url(provider)),
                stored_base_url(provider),
            ),
            model: filled_or(self.setting_or("model"@, "deepseek-chat"@), "deepseek-chat"@),
            temperature,
            max_tokens: positive_or(
                stored_number(self.setting_or("max_tokens"@, "4096"@), 4096),
                4096,
            ) as i64,
            max_context_tokens: positive_or(
                stored_number(self.setting_or("max_context_tokens"@, "12000"@), 12000),
                12000,
            ) as i64,
            max_recent_messages: positive_or(
                stored_number(self.setting_or("max_recent_messages"@, "20"@), 20),
                20,
            ) as i64,
            max_memory_items: natural_or(
                stored_number(self.setting_or("max_memory_items"@, "8"@), 8),
                8,
            ) as i64,
            txt_max_file_bytes: MAX_TXT_FILE_BYTES,
        }
    }
    /// The settings of the chat that are in use, given the bits of the
    /// temperature.
    pub open spec fn chat_in_use(self, temperature: u32) -> ChatSettings<Seq<char>> {
        self.chat_settings(provider_name(self.setting_or("provider"@, "deepseek"@)), temperature)
    }
}

/// The settings of the chat as they are stored for a provider.
pub open spec fn storable(s: ChatSettings<Seq<char>>, provider: Seq<char>) -> ChatSettings<
    Seq<char>,
> {
    ChatSettings {
        provider,
        base_url: if is_blank(s.base_url) && provider != "custom"@ {
            stored_base_url(provider)
        } else {
            trimmed(s.base_url)
        },
        model: if is_blank(s.model) {
            "deepseek-chat"@
        } else {
            trimmed(s.model)
        },
        temperature: s.temperature,
        max_tokens: positive_or(s.max_tokens as int, 4096) as i64,
        max_context_tokens: positive_or(s.max_context_tokens as int, 12000) as i64,
        max_recent_messages: positive_or(s.max_recent_messages as int, 20) as i64,
        max_memory_items: natural_or(s.max_memory_items as int, 8) as i64,
        txt_max_file_bytes: MAX_TXT_FILE_BYTES,
    }
}

/// The keys and values under which the settings of the chat are stored.
pub open spec fn chat_pairs(s: ChatSettings<Seq<char>>, temperature: Seq<char>) -> Seq<
    (Seq<char>, Seq<char>),
> {
    seq![
        ("provider"@, s.provider),
        ("base_url"@, s.base_url),
        ("model"@, s.model),
        ("temperature"@, temperature),
        ("max_tokens"@, decimal(s.max_tokens as int)),
        ("max_context_tokens"@, decimal(s.max_context_tokens as int)),
        ("max_recent_messages"@, decimal(s.max_recent_messages as int)),
        ("max_memory_items"@, decimal(s.max_memory_items as int)),
    ]
}

/// A stored number; `default` where it cannot be read.
fn read_number(text: &str, default: i64) -> (r: i64)
    ensures
        r == stored_number(text@, default as int),
{
    match parse_i64(text) {
        Some(n) => n,
        None => default,
    }
}

impl Database {
    /// The settings of the chat, given the provider and the bits of the
    /// temperature.
    pub fn chat_settings_for(&self, provider: &str, temperature: u32) -> (r: ChatSettings)
        ensures
            r@ == self@.chat_settings(provider@, temperature),
    {
        let default_base = default_base_url_for_provider(provider);
        let base_saved = self.get_setting("base_url", default_base);
        let base_url = if blank(&base_saved) {
            default_base.to_owned()
        } else {
            base_saved
        };
        let model_saved = self.get_setting("model", "deepseek-chat");
        let model = if blank(&model_saved) {
            "deepseek-chat".to_owned()
        } else {
            model_saved
        };
        let max_tokens: i64 = read_number(&self.get_setting("max_tokens", "4096"), 4096);
        let max_context_tokens: i64 = read_number(
            &self.get_setting("max_context_tokens", "12000"),
            12000,
        );
        let max_recent_messages: i64 = read_number(
            &self.get_setting("max_recent_messages", "20"),
            20,
        );
        let max_memory_items: i64 = read_number(&self.get_setting("max_memory_items", "8"), 8);
        ChatSettings {
            provider: provider.to_owned(),
            base_url,
            model,
            temperature,
            max_tokens: positive_or_default(max_tokens, 4096),
            max_context_tokens: positive_or_default(max_context_tokens, 12000),
            max_recent_messages: positive_or_default(max_recent_messages, 20),
            max_memory_items: natural_or_default(max_memory_items, 8),
            txt_max_file_bytes: MAX_TXT_FILE_BYTES,
        }
    }

    /// The settings of the chat, given the bits of the stored temperature.
    pub fn get_chat_settings(&self, temperature: u32) -> (r: ChatSettings)
        ensures
            r@ == self@.chat_in_use(temperature),
    {
        let provider = normalize_provider(&self.get_setting("provider", "deepseek"));
        self.chat_settings_for(&provider, temperature)
    }

    /// Stores the settings of the chat for a provider at `now`; `temperature`
    /// is the text of the temperature.
    pub fn store_chat_settings(
        &mut self,
        settings: &ChatSettings,
        provider: &str,
        temperature: &str,
        now: &str,
    )
        ensures
            final(self)@ == old(self)@.with_settings(
                chat_pairs(storable(settings@, provider@), temperature@),
                now@,
            ),
    {
        let mut base_url = trim(&settings.base_url);
        if base_url.as_str().is_empty() && !text_eq(provider, "custom") {
            base_url = default_base_url_for_provider(provider).to_owned();
        }
        let model = trim(&settings.model);
        let model = if model.as_str().is_empty() {
            "deepseek-chat".to_owned()
        } else {
            model
        };
        let mut pairs: Vec<(String, String)> = Vec::new();
        pairs.push(("provider".to_owned(), provider.to_owned()));
        pairs.push(("base_url".to_owned(), base_url));
        pairs.push(("model".to_owned(), model));
        pairs.push(("temperature".to_owned(), temperature.to_owned()));
        pairs.push(
            ("max_tokens".to_owned(), show_i64(positive_or_default(settings.max_tokens, 4096))),
        );
        pairs.push(
            (
                "max_context_tokens".to_owned(),
                show_i64(positive_or_default(settings.max_context_tokens, 12000)),
            ),
        );
        pairs.push(
            (
                "max_recent_messages".to_owned(),
                show_i64(positive_or_default(settings.max_recent_messages, 20)),
            ),
        );
        pairs.push(
            (
                "max_memory_items".to_owned(),
                show_i64(natural_or_default(settings.max_memory_items, 8)),
            ),
        );
        assert(pair_texts(pairs@) =~= chat_pairs(
            storable(settings@, provider@),
            temperature@,
        ));
        self.set_settings_at(&pairs, now);
    }

    /// Stores the settings of the chat; `temperature` is the text of the
    /// temperature.
    pub fn set_chat_settings(&mut self, settings: &ChatSettings, temperature: &str)
        ensures
            exists|now: Seq<char>|
                is_time_text(now) && final(self)@ == #[trigger] old(self)@.with_settings(
                    chat_pairs(
                        storable(settings@, provider_name(settings@.provider)),
                        temperature@,
                    ),
                    now,
                ),
    {
        let provider = normalize_provider(&settings.provider);
        let now = now_iso();
        self.store_chat_settings(settings, &provider, temperature, &now);
        let ghost pairs = chat_pairs(
            storable(settings@, provider_name(settings@.provider)),
            temperature@,
        );
        assert(self@ == old(self)@.with_settings(pairs, now@));
    }
}

/// A value stored in a row of pairs with different keys is read back, and what
/// is stored under other keys stays.
proof fn lemma_pairs_read_back(
    t: Tables,
    pairs: Seq<(Seq<char>, Seq<char>)>,
    now: Seq<char>,
    k: int,
)
    requires
        0 <= k < pairs.len(),
        forall|i: int| k < i < pairs.len() ==> (#[trigger] pairs[i]).0 != pairs[k].0,
    ensures
        t.with_settings(pairs, now).setting(pairs[k].0) == Some(pairs[k].1),
    decreases pairs.len(),
{
    let front = t.with_settings(pairs.drop_last(), now);
    law_setting_reads_back(front, pairs.last().0, pairs.last().1, now);
    if k < pairs.len() - 1 {
        assert(pairs[pairs.len() - 1].0 != pairs[k].0);
        lemma_pairs_read_back(t, pairs.drop_last(), now, k);
    }
}

/// The keys of the settings of the chat differ.
proof fn lemma_chat_keys()
    ensures
        "provider"@ != "base_url"@,
        "provider"@ != "model"@,
        "provider"@ != "temperature"@,
        "provider"@ != "max_tokens"@,
        "provider"@ != "max_context_tokens"@,
        "provider"@ != "max_recent_messages"@,
        "provider"@ != "max_memory_items"@,
        "base_url"@ != "model"@,
        "base_url"@ != "temperature"@,
        "base_url"@ != "max_tokens"@,
        "base_url"@ != "max_context_tokens"@,
        "base_url"@ != "max_recent_messages"@,
        "base_url"@ != "max_memory_items"@,
        "model"@ != "temperature"@,
        "model"@ != "max_tokens"@,
        "model"@ != "max_context_tokens"@,
        "model"@ != "max_recent_messages"@,
        "model"@ != "max_memory_items"@,
        "temperature"@ != "max_tokens"@,
        "temperature"@ != "max_context_tokens"@,
        "temperature"@ != "max_recent_messages"@,
        "temperature"@ != "max_memory_items"@,
        "max_tokens"@ != "max_context_tokens"@,
        "max_tokens"@ != "max_recent_messages"@,
        "max_tokens"@ != "max_memory_items"@,
        "max_context_tokens"@ != "max_recent_messages"@,
        "max_context_tokens"@ != "max_memory_items"@,
        "max_recent_messages"@ != "max_memory_items"@,
{
    reveal_strlit("provider");
    reveal_strlit("base_url");
    reveal_strlit("model");
    reveal_strlit("temperature");
    reveal_strlit("max_tokens");
    reveal_strlit("max_context_tokens");
    reveal_strlit("max_recent_messages");
    reveal_strlit("max_memory_items");
    assert("provider"@[0] != "base_url"@[0]);
    assert("provider"@[0] == 'p' && "base_url"@[0] == 'b' && "model"@[0] == 'm'
        && "temperature"@[0] == 't' && "max_tokens"@[0] == 'm');
    assert("model"@[1] == 'o' && "max_tokens"@[1] == 'a');
    assert("max_tokens"@[4] == 't' && "max_context_tokens"@[4] == 'c' && "max_recent_messages"@[4]
        == 'r' && "max_memory_items"@[4] == 'm');
    assert("max_context_tokens"@[1] == 'a' && "max_recent_messages"@[1] == 'a'
        && "max_memory_items"@[1] == 'a');
    assert("max_context_tokens"@[0] == 'm' && "max_recent_messages"@[0] == 'm'
        && "max_memory_items"@[0] == 'm');
}

/// What was stored of the settings of the chat is read back: the provider, and
/// for that provider everything else as it was stored.
pub proof fn law_chat_settings_read_back(
    t: Tables,
    s: ChatSettings<Seq<char>>,
    provider: Seq<char>,
    temperature: Seq<char>,
    now: Seq<char>,
)
    ensures
        ({
            let after = t.with_settings(chat_pairs(storable(s, provider), temperature), now);
            &&& after.setting("provider"@) == Some(provider)
            &&& after.setting("temperature"@) == Some(temperature)
            &&& after.chat_settings(provider, s.temperature) == storable(s, provider)
        }),
{
    let want = storable(s, provider);
    let pairs = chat_pairs(want, temperature);
    let after = t.with_settings(pairs, now);
    lemma_chat_keys();
    lemma_pairs_read_back(t, pairs, now, 0);
    lemma_pairs_read_back(t, pairs, now, 1);
    lemma_pairs_read_back(t, pairs, now, 2);
    lemma_pairs_read_back(t, pairs, now, 3);
    lemma_pairs_read_back(t, pairs, now, 4);
    lemma_pairs_read_back(t, pairs, now, 5);
    lemma_pairs_read_back(t, pairs, now, 6);
    lemma_pairs_read_back(t, pairs, now, 7);
    law_decimal_reads_back(want.max_tokens);
    law_decimal_reads_back(want.max_context_tokens);
    law_decimal_reads_back(want.max_recent_messages);
    law_decimal_reads_back(want.max_memory_items);
    law_trimmed_stays(s.base_url);
    law_trimmed_stays(s.model);
    assert(after.chat_settings(provider, s.temperature).base_url == want.base_url) by {
        reveal_strlit("");
        if provider == "custom"@ && is_blank(s.base_url) {
            assert(trimmed(s.base_url) =~= ""@);
            lemma_not_custom();
        }
    }
    assert(after.chat_settings(provider, s.temperature) =~= want);
}

/// `custom` is no provider with an address of its own.
proof fn lemma_not_custom()
    ensures
        stored_base_url("custom"@) == ""@,
{
    reveal_strlit("custom");
    reveal_strlit("openai");
    reveal_strlit("openrouter");
    reveal_strlit("ollama");
    assert("custom"@[0] == 'c' && "openai"@[0] == 'o' && "openrouter"@[0] == 'o' && "ollama"@[0]
        == 'o');
}

// ---------------------------------------------------------------------------
// First start
// ---------------------------------------------------------------------------

/// The settings that a new database has, given the text of the offered models.
pub open spec fn first_settings(models: Seq<char>) -> Seq<(Seq<char>, Seq<char>)> {
    seq![
        ("provider"@, "deepseek"@),
        ("base_url"@, "https://api.deepseek.com"@),
        ("model"@, "deepseek-chat"@),
        ("temperature"@, "0.7"@),
        ("max_tokens"@, "4096"@),
        ("max_context_tokens"@, "12000"@),
        ("max_recent_messages"@, "20"@),
        ("max_memory_items"@, "8"@),
        ("last_conversation_id"@, ""@),
        ("theme_mode"@, "system"@),
        ("models"@, models),
        ("api_key_deepseek"@, ""@),
        ("api_key_openai"@, ""@),
        ("api_key_openrouter"@, ""@),
        ("api_key_ollama"@, ""@),
        ("api_key_custom"@, ""@),
    ]
}

/// A pair of texts.
fn pair(key: &str, value: &str) -> (r: (String, String))
    ensures
        r.0@ == key@,
        r.1@ == value@,
{
    (key.to_owned(), value.to_owned())
}

impl Database {
    /// Stores the first settings where there are none, at `now`.
    pub fn seed_default_settings_at(&mut self, now: &str)
        ensures
            final(self)@ == old(self)@.with_defaults(
                first_settings(texts_json(default_model_names())),
                now@,
            ),
    {
        let models = write_texts(&default_models());
        let mut pairs: Vec<(String, String)> = Vec::new();
        pairs.push(pair("provider", "deepseek"));
        pairs.push(pair("base_url", "https://api.deepseek.com"));
        pairs.push(pair("model", "deepseek-chat"));
        pairs.push(pair("temperature", "0.7"));
        pairs.push(pair("max_tokens", "4096"));
        pairs.push(pair("max_context_tokens", "12000"));
        pairs.push(pair("max_recent_messages", "20"));
        pairs.push(pair("max_memory_items", "8"));
        pairs.push(pair("last_conversation_id", ""));
        pairs.push(pair("theme_mode", "system"));
        pairs.push(pair("models", &models));
        pairs.push(pair("api_key_deepseek", ""));
        pairs.push(pair("api_key_openai", ""));
        pairs.push(pair("api_key_openrouter", ""));
        pairs.push(pair("api_key_ollama", ""));
        pairs.push(pair("api_key_custom", ""));
        assert(pair_texts(pairs@) =~= first_settings(texts_json(default_model_names())));
        self.set_defaults_at(&pairs, now);
    }
}

} // verus!
