use aipartner::chat::load_api_key;
use aipartner::commands::{get_settings, has_api_key, save_api_key, set_settings};
use aipartner::db::Database;
use aipartner::models::{AppSettingsPayload, ChatSettings, SaveApiKeyInput};
use aipartner::json::{parse, Json};
use aipartner::settings_file::{
    load_settings_text, load_settings_text_at, plan_settings, StoredSettings,
};
use serde_json::Value;

fn strings(list: &[&str]) -> Vec<String> {
    list.iter().map(|s| s.to_string()).collect()
}

fn chat(provider: &str, base_url: &str, model: &str) -> ChatSettings {
    ChatSettings {
        provider: provider.to_string(),
        base_url: base_url.to_string(),
        model: model.to_string(),
        temperature: 0.5f32.to_bits(),
        max_tokens: 100,
        max_context_tokens: 5000,
        max_recent_messages: 10,
        max_memory_items: 0,
        txt_max_file_bytes: 1_048_576,
    }
}

#[test]
fn settings_read_back_one_by_one() {
    let mut db = Database::new();
    assert_eq!(db.get_setting("a", "none"), "none");
    db.set_setting_at("a", "1", "t1");
    db.set_setting("b", "2");
    db.set_setting_at("a", "3", "t2");
    assert_eq!(db.get_setting("a", "none"), "3");
    assert_eq!(db.get_setting("b", "none"), "2");
    assert_eq!(db.settings.len(), 2);
    assert_eq!(db.settings[0].updated_at, "t2");
}

#[test]
fn models_read_back() {
    let mut db = Database::new();
    assert_eq!(db.get_models().len(), 6);
    let list = strings(&["a \"quoted\" one", "后\\面\n", ""]);
    db.set_models(&list);
    assert_eq!(db.get_models(), list);
    assert_eq!(db.get_setting("models", ""), "[\"a \\\"quoted\\\" one\",\"后\\\\面\\n\",\"\"]");
    db.set_models(&vec![]);
    assert_eq!(db.get_models().len(), 6);
    db.set_setting("models", "no json");
    assert_eq!(db.get_models()[0], "deepseek-chat");
    db.set_setting("models", "[1]");
    assert_eq!(db.get_models().len(), 6);
}

#[test]
fn chat_settings_have_defaults() {
    let db = Database::new();
    let s = db.get_chat_settings(7);
    assert_eq!(s.provider, "deepseek");
    assert_eq!(s.base_url, "https://api.deepseek.com");
    assert_eq!(s.model, "deepseek-chat");
    assert_eq!(s.temperature, 7);
    assert_eq!(
        (s.max_tokens, s.max_context_tokens, s.max_recent_messages, s.max_memory_items),
        (4096, 12000, 20, 8)
    );
}

#[test]
fn chat_settings_read_back() {
    let mut db = Database::new();
    db.set_chat_settings(&chat(" OpenAI ", " http://x ", " gpt "), "0.5");
    let s = db.get_chat_settings(0.5f32.to_bits());
    assert_eq!((s.provider.as_str(), s.base_url.as_str(), s.model.as_str()), ("openai", "http://x", "gpt"));
    assert_eq!(
        (s.max_tokens, s.max_context_tokens, s.max_recent_messages, s.max_memory_items),
        (100, 5000, 10, 0)
    );
    assert_eq!(db.get_setting("temperature", ""), "0.5");
    assert_eq!(db.settings.len(), 8);
}

#[test]
fn odd_chat_settings_are_mended() {
    let mut db = Database::new();
    let mut c = chat("openrouter", " ", " ");
    c.max_tokens = 0;
    c.max_context_tokens = -1;
    c.max_recent_messages = 0;
    c.max_memory_items = -5;
    db.set_chat_settings(&c, "1");
    let s = db.get_chat_settings(0);
    assert_eq!(s.base_url, "https://openrouter.ai/api/v1");
    assert_eq!(s.model, "deepseek-chat");
    assert_eq!(
        (s.max_tokens, s.max_context_tokens, s.max_recent_messages, s.max_memory_items),
        (4096, 12000, 20, 8)
    );
    db.set_chat_settings(&chat("custom", "", "m"), "1");
    assert_eq!(db.get_setting("base_url", "x"), "");
    assert_eq!(db.get_chat_settings(0).base_url, "");
    for (key, value) in [("max_tokens", "abc"), ("max_context_tokens", "-3"), ("max_memory_items", "-1")] {
        db.set_setting(key, value);
    }
    let s = db.get_chat_settings(0);
    assert_eq!((s.max_tokens, s.max_context_tokens, s.max_memory_items), (4096, 12000, 8));
}

#[test]
fn first_settings_do_not_overwrite() {
    let mut db = Database::new();
    db.set_setting_at("model", "mine", "t0");
    db.seed_default_settings_at("t1");
    assert_eq!(db.settings.len(), 16);
    assert_eq!(db.get_setting("model", ""), "mine");
    assert_eq!(db.get_setting("temperature", ""), "0.7");
    assert_eq!(db.get_models().len(), 6);
    db.seed_default_settings_at("t2");
    assert_eq!(db.settings.len(), 16);
    assert!(db.settings.iter().all(|s| s.updated_at != "t2"));
}

#[test]
fn profiles_are_kept() {
    let mut db = Database::new();
    let mut u = db.get_user_profile();
    assert_eq!(u.language_preference, "auto");
    assert!(db.user_profile.is_none());
    u.preferred_name = "Bob".to_string();
    db.save_user_profile_at(&u, "t5");
    assert_eq!(db.get_user_profile().preferred_name, "Bob");
    assert_eq!(db.get_user_profile().updated_at, "t5");
    let mut s = db.get_style_profile();
    assert_eq!((s.detail_level.as_str(), s.tone.as_str()), ("balanced", "warm_direct"));
    s.tone = "direct".to_string();
    db.save_style_profile(&s);
    assert_eq!(db.get_style_profile().tone, "direct");
    assert!(db.get_style_profile().updated_at.ends_with("+00:00"));
    db.save_user_profile(&u);
    db.save_style_profile_at(&s, "t6");
    assert_eq!(db.get_style_profile().updated_at, "t6");
}

#[test]
fn starting_prepares_everything() {
    let mut db = Database::new();
    db.prepare();
    assert_eq!(db.settings.len(), 16);
    assert!(db.user_profile.is_some() && db.style_profile.is_some());
    let mut again = Database::new();
    again.create_conversation_at(None, "a", "t").unwrap();
    again.conversations[0].sort_index = -4;
    again.prepare_at("t1", "t2", "t3");
    assert_eq!(again.conversations[0].sort_index, 1);
    assert_eq!(again.user_profile.unwrap().updated_at, "t2");
    assert_eq!(again.style_profile.unwrap().updated_at, "t3");
}

#[test]
fn saved_keys_are_used() {
    let mut db = Database::new();
    let input = |p: &str, k: &str| SaveApiKeyInput { provider: p.to_string(), api_key: k.to_string() };
    assert_eq!(save_api_key(&mut db, &input("openai", "  ")), Err("api_key cannot be empty".to_string()));
    assert_eq!(db.settings.len(), 0);
    assert!(!has_api_key(&db, "openai"));
    assert_eq!(save_api_key(&mut db, &input(" OpenAI ", " k1 ")), Ok(()));
    assert!(has_api_key(&db, "OPENAI"));
    assert_eq!(load_api_key(&db, "openai"), Some("k1".to_string()));
    assert_eq!(load_api_key(&db, "deepseek"), None);
    assert_eq!(db.get_setting("provider", ""), "openai");
}

#[test]
fn the_settings_page_reads_back() {
    let mut db = Database::new();
    let payload = AppSettingsPayload {
        chat: chat("ollama", "", "llama"),
        last_conversation_id: "c9".to_string(),
        theme_mode: " DARK ".to_string(),
        models: strings(&["llama"]),
    };
    set_settings(&mut db, &payload, "0.5");
    let page = get_settings(&db, 1);
    assert_eq!(page.chat.provider, "ollama");
    assert_eq!(page.chat.base_url, "http://127.0.0.1:11434/v1");
    assert_eq!(page.last_conversation_id, "c9");
    assert_eq!(page.theme_mode, "dark");
    assert_eq!(page.models, strings(&["llama"]));
    db.set_setting("theme_mode", "pink");
    assert_eq!(get_settings(&db, 1).theme_mode, "system");
}

#[test]
fn the_settings_file_holds_keys() {
    let mut db = Database::new();
    db.set_setting("provider", "mistral");
    db.set_setting("api_key_openai", "k1");
    db.set_setting("api_key_mistral", "k2");
    let f = db.settings_snapshot(3);
    assert_eq!(f.chat.provider, "mistral");
    assert_eq!(f.theme_mode, "system");
    let keys: Vec<(&str, &str)> = f.api_keys.iter().map(|(a, b)| (a.as_str(), b.as_str())).collect();
    assert_eq!(
        keys,
        vec![
            ("deepseek", ""),
            ("openai", "k1"),
            ("openrouter", ""),
            ("ollama", ""),
            ("custom", ""),
            ("mistral", "k2")
        ]
    );
    db.set_setting("provider", "custom");
    assert_eq!(db.settings_snapshot(3).api_keys.len(), 5);
}

#[test]
fn the_settings_file_is_read() {
    let mut db = Database::new();
    let f = StoredSettings {
        chat: Some(chat("openai", "", "gpt")),
        temperature: "0.5".to_string(),
        last_conversation_id: Some("c1".to_string()),
        theme_mode: Some("light".to_string()),
        models: Some(strings(&["gpt"])),
        api_keys: vec![
            ("OpenAI".to_string(), " k ".to_string()),
            ("ollama".to_string(), "  ".to_string()),
        ],
    };
    db.apply_settings_file(&f);
    let page = get_settings(&db, 0);
    assert_eq!(page.chat.model, "gpt");
    assert_eq!((page.last_conversation_id.as_str(), page.theme_mode.as_str()), ("c1", "light"));
    assert_eq!(page.models, strings(&["gpt"]));
    assert_eq!(load_api_key(&db, "openai"), Some("k".to_string()));
    assert_eq!(db.get_setting("api_key_ollama", "unset"), "unset");

    let empty = StoredSettings {
        chat: None,
        temperature: String::new(),
        last_conversation_id: None,
        theme_mode: None,
        models: Some(vec![]),
        api_keys: vec![],
    };
    let before = db.settings.len();
    db.apply_settings_file(&empty);
    assert_eq!(db.settings.len(), before);
    assert_eq!(db.get_models(), strings(&["gpt"]));
}

/// The value as serde writes it.
fn value(j: &Json) -> Value {
    match j {
        Json::Null => Value::Null,
        Json::Bool(b) => Value::Bool(*b),
        Json::Number(n) => Value::from(n.unwrap()),
        Json::Real(bits) => Value::from(f32::from_bits(*bits)),
        Json::Text(s) => Value::String(s.clone()),
        Json::Array(v) => Value::Array(v.iter().map(value).collect()),
        Json::Object(v) => Value::Object(v.iter().map(|(k, x)| (k.clone(), value(x))).collect()),
    }
}

#[test]
fn the_settings_file_is_a_document() {
    let mut db = Database::new();
    db.set_chat_settings(&chat("openai", "http://x", "gpt"), "0.5");
    db.set_models(&strings(&["gpt", "other"]));
    db.set_setting("last_conversation_id", "c1");
    db.set_setting("api_key_openai", "k1");
    let doc = value(&db.settings_document(0.5f32.to_bits()));
    assert_eq!(
        serde_json::to_string(&doc["chat"]).unwrap(),
        "{\"base_url\":\"http://x\",\"max_context_tokens\":5000,\"max_memory_items\":0,\"max_recent_messages\":10,\"max_tokens\":100,\"model\":\"gpt\",\"provider\":\"openai\",\"temperature\":0.5,\"txt_max_file_bytes\":1048576}"
    );
    assert_eq!(serde_json::to_string(&doc["models"]).unwrap(), "[\"gpt\",\"other\"]");
    assert_eq!(doc["last_conversation_id"], "c1");
    assert_eq!(doc["theme_mode"], "system");
    assert_eq!(
        serde_json::to_string(&doc["api_keys"]).unwrap(),
        "{\"custom\":\"\",\"deepseek\":\"\",\"ollama\":\"\",\"openai\":\"k1\",\"openrouter\":\"\"}"
    );
    assert_eq!(doc.as_object().unwrap().len(), 5);
}

#[test]
fn written_settings_are_read_back() {
    let mut db = Database::new();
    db.set_chat_settings(&chat("mistral", "http://x", "m1"), "0.5");
    db.set_models(&strings(&["m1"]));
    db.set_setting("last_conversation_id", "c1");
    db.set_setting("theme_mode", "dark");
    db.set_setting("api_key_mistral", " k2 ");
    let bits = 0.5f32.to_bits();
    let text = serde_json::to_string_pretty(&value(&db.settings_document(bits))).unwrap();
    let mut other = Database::new();
    other.set_setting("api_key_ollama", "mine");
    load_settings_text(&mut other, &text, Some(db.get_chat_settings(bits)), "0.5").unwrap();
    let page = get_settings(&other, bits);
    assert_eq!(
        (page.chat.provider.as_str(), page.chat.base_url.as_str(), page.chat.model.as_str()),
        ("mistral", "http://x", "m1")
    );
    assert_eq!((page.chat.max_tokens, page.chat.max_memory_items), (100, 0));
    assert_eq!((page.last_conversation_id.as_str(), page.theme_mode.as_str()), ("c1", "dark"));
    assert_eq!(page.models, strings(&["m1"]));
    assert_eq!(other.get_setting("temperature", ""), "0.5");
    assert_eq!(load_api_key(&other, "mistral"), Some("k2".to_string()));
    assert_eq!(load_api_key(&other, "ollama"), Some("mine".to_string()));
}

#[test]
fn texts_of_settings_are_read() {
    let mut db = Database::new();
    db.set_setting_at("model", "mine", "t0");
    let fault = load_settings_text_at(&mut db, "{\"chat\":", None, "", "t1").unwrap_err();
    assert!(fault.starts_with("EOF while parsing"));
    assert_eq!(db.settings.len(), 1);

    let odd = "{\"last_conversation_id\":7,\"theme_mode\":\" LIGHT \",\"models\":[\"a\",1],\"api_keys\":{\"openai\":\" k \",\"ollama\":3,\"custom\":\" \"}}";
    assert_eq!(load_settings_text_at(&mut db, odd, Some(chat("openai", "", "gpt")), "0.5", "t1"), Ok(()));
    let stored: Vec<(&str, &str)> =
        db.settings.iter().map(|s| (s.key.as_str(), s.value.as_str())).collect();
    assert_eq!(stored, vec![("model", "mine"), ("theme_mode", "light"), ("api_key_openai", "k")]);

    assert_eq!(load_settings_text(&mut db, "{\"chat\":{},\"models\":[]}", Some(chat("openai", "", "gpt")), "0.5"), Ok(()));
    assert_eq!(db.get_setting("model", ""), "gpt");
    assert_eq!(db.get_setting("models", "none"), "none");
    let before = db.settings.len();
    for text in ["[]", "3", "{\"chat\":3}", "{\"api_keys\":[]}"] {
        assert_eq!(load_settings_text(&mut db, text, None, ""), Ok(()));
    }
    assert_eq!(db.settings.len(), before);
}

#[test]
fn members_of_the_settings_file_are_picked() {
    let root = parse("{\"models\":[\"a\",\"b\"],\"last_conversation_id\":\"c\",\"chat\":null}").unwrap();
    let f = plan_settings(&root, Some(chat("openai", "", "gpt")), "0.5");
    assert_eq!(f.chat.unwrap().model, "gpt");
    assert_eq!(f.temperature, "0.5");
    assert_eq!(f.last_conversation_id, Some("c".to_string()));
    assert_eq!(f.theme_mode, None);
    assert_eq!(f.models, Some(strings(&["a", "b"])));
    assert!(f.api_keys.is_empty());
    let f = plan_settings(&Json::Null, Some(chat("openai", "", "gpt")), "0.5");
    assert!(f.chat.is_none() && f.models.is_none());
}
