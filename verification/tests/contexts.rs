use aipartner::budget::{assemble_context, has_latest_input, make_talk};
use aipartner::chat::{build_context_at, build_context_messages, conversation_config, own_temperature};
use aipartner::context::{
    describe_files, describe_profiles, estimate_messages_tokens, estimate_tokens, make_pinned,
    make_section, profile_line,
};
use aipartner::db::Database;
use aipartner::models::{ApiMessage, ChatSettings, ConversationFile, Message, TokenUsage};

fn message(n: usize, role: &str, content: &str) -> Message {
    Message {
        id: format!("m{n}"),
        conversation_id: "c".to_string(),
        role: role.to_string(),
        content: content.to_string(),
        reasoning_content: "why".to_string(),
        token_usage: TokenUsage { prompt: 0, completion: 0, total: 0 },
        created_at: format!("t{n:03}"),
        updated_at: String::new(),
        deleted_at: None,
        deleted_reason: String::new(),
    }
}

fn api(role: &str, content: &str) -> ApiMessage {
    ApiMessage { role: role.to_string(), content: content.to_string(), reasoning_content: None }
}

fn file(name: &str, content: &str, summary: &str) -> ConversationFile {
    ConversationFile {
        id: name.to_string(),
        conversation_id: "c".to_string(),
        file_name: name.to_string(),
        file_path: String::new(),
        file_size: 12,
        content_text: content.to_string(),
        summary: summary.to_string(),
        created_at: String::new(),
        deleted_at: None,
    }
}

fn settings() -> ChatSettings {
    ChatSettings {
        provider: "deepseek".to_string(),
        base_url: "https://api.deepseek.com".to_string(),
        model: "deepseek-v4-pro".to_string(),
        temperature: 0,
        max_tokens: 4096,
        max_context_tokens: 12000,
        max_recent_messages: 20,
        max_memory_items: 8,
        txt_max_file_bytes: 1_048_576,
    }
}

#[test]
fn tokens_are_estimated() {
    assert_eq!(estimate_tokens(""), 1);
    assert_eq!(estimate_tokens("a"), 2);
    assert_eq!(estimate_tokens("abcd"), 2);
    assert_eq!(estimate_tokens("你好世界a"), 3);
    assert_eq!(estimate_messages_tokens(&vec![api("user", "abcd"), api("user", "")]), 2 + 2 + 4 + 2 + 1 + 4);
    assert_eq!(estimate_messages_tokens(&vec![]), 0);
}

#[test]
fn lines_of_profiles() {
    assert_eq!(profile_line("name", "  Bob ", 48), Some("- name: Bob".to_string()));
    assert_eq!(profile_line("name", "abcdef", 3), Some("- name: abc".to_string()));
    assert_eq!(profile_line("name", " ", 3), None);
    let mut db = Database::new();
    let mut u = db.user_profile_at("t");
    u.preferred_name = "Bob".to_string();
    db.save_user_profile_at(&u, "t");
    let lines = describe_profiles(&db.get_user_profile(), &db.get_style_profile());
    assert_eq!(
        lines,
        vec![
            "- preferred_name: Bob",
            "- language_preference: auto",
            "- style_detail_level: balanced",
            "- style_tone: warm_direct",
            "- style_technical_level: balanced",
            "- style_language_style: auto"
        ]
    );
}

#[test]
fn lines_of_attachments() {
    let files = vec![file("a.txt", "text of a", "gist of a"), file("b.txt", "text of b", " "), file("c.txt", "", "")];
    assert_eq!(
        describe_files(&files, &vec![], false),
        vec!["- a.txt (12 bytes): gist of a", "- b.txt (12 bytes): text of b"]
    );
    assert_eq!(
        describe_files(&files, &vec!["raw a".to_string()], true),
        vec![
            "- a.txt (12 bytes)\n  summary: gist of a\n  excerpt:\nraw a",
            "- b.txt (12 bytes)\n  summary: \n  excerpt:\ntext of b"
        ]
    );
    let long = "x".repeat(2000);
    let many: Vec<ConversationFile> = (0..6).map(|n| file(&format!("{n}"), &long, "s")).collect();
    let lines = describe_files(&many, &vec![], true);
    let sizes: Vec<usize> = lines.iter().map(|l| l.matches('x').count() - l.matches("excerpt").count()).collect();
    assert_eq!(sizes, vec![1200, 1200, 1200, 600]);
}

#[test]
fn sections_have_headings() {
    assert_eq!(make_section("[H]", &vec!["a".to_string(), "b".to_string()]), "[H]\na\nb");
    assert_eq!(make_section("[H]", &vec![]), "");
    assert_eq!(make_pinned(" ", " ", 2048), Vec::<String>::new());
    assert_eq!(
        make_pinned(" rules ", " persona ", 2048),
        vec!["[Conversation System Prompt]\nrules", "persona"]
    );
    let long = make_pinned(&"r".repeat(99_999), "", 2048);
    assert_eq!(long[0].matches('r').count() - 2, 682 * 4);
}

#[test]
fn talk_is_what_user_and_assistant_say() {
    let ms = vec![
        message(0, "system", "s"),
        message(1, "user", "u"),
        message(2, "assistant", " "),
        message(3, "assistant", &"a".repeat(8000)),
    ];
    let t = make_talk(&ms, false);
    assert_eq!(t.len(), 2);
    assert_eq!(t[1].content.len(), 7000);
    assert_eq!(t[1].reasoning_content, None);
    assert_eq!(make_talk(&ms, true)[1].reasoning_content, Some("why".to_string()));
    assert!(has_latest_input(&vec![message(0, "user", " hi ")], "hi "));
    assert!(!has_latest_input(&vec![message(0, "assistant", "hi")], "hi"));
    assert!(!has_latest_input(&vec![], "hi"));
}

#[test]
fn the_input_comes_last() {
    let ms = vec![message(0, "user", "old"), message(1, "assistant", "answer")];
    let out = assemble_context(vec![], &vec![], &ms, "new", 4096, false);
    let told: Vec<&str> = out.iter().map(|m| m.content.as_str()).collect();
    assert_eq!(told, vec!["", "old", "answer", "new"]);
    assert_eq!(out[0].role, "system");
    let out = assemble_context(vec![], &vec![], &ms[..1].iter().map(|m| message(0, &m.role, "old")).collect(), " old ", 4096, false);
    assert_eq!(out.len(), 2);
    assert_eq!(out[1].content, "old");
    let out = assemble_context(vec![], &vec![], &vec![message(0, "user", " ")], "", 4096, false);
    assert_eq!(out.len(), 2);
    assert_eq!(out[1].content, "");
}

#[test]
fn old_messages_go_first() {
    let ms: Vec<Message> = (0..6).map(|n| message(n, "user", &format!("{n}{}", "x".repeat(2000)))).collect();
    let out = assemble_context(vec![], &vec![], &ms, "now", 2048, false);
    let firsts: Vec<String> = out[1..].iter().map(|m| m.content.chars().take(1).collect()).collect();
    assert_eq!(firsts, vec!["3", "4", "5", "n"]);
    let pinned = vec!["p".repeat(2400)];
    let out = assemble_context(pinned, &vec![], &ms, "now", 2048, false);
    let firsts: Vec<String> = out[1..].iter().map(|m| m.content.chars().take(1).collect()).collect();
    assert_eq!(firsts, vec!["4", "5", "n"]);
    let huge = vec!["p".repeat(20_000)];
    let out = assemble_context(huge, &vec![], &ms, "now", 2048, false);
    assert_eq!(out.len(), 2);
    assert_eq!(out[1].content, "now");
}

#[test]
fn sections_are_told_where_they_fit() {
    let optional = vec![
        "profile".to_string(),
        "f".repeat(9000),
        "  ".to_string(),
        "memories".to_string(),
        "summaries".to_string(),
    ];
    let out = assemble_context(vec!["rules".to_string()], &optional, &vec![], "hi", 2048, false);
    assert_eq!(out[0].content, "rules\n\nprofile\n\nmemories\n\nsummaries");
    let out = assemble_context(vec!["rules".to_string()], &optional, &vec![], "hi", 8000, false);
    assert!(out[0].content.contains("fff"));
    let out = assemble_context(vec!["r".repeat(9000)], &optional, &vec![], "hi", 2048, false);
    assert_eq!(out[0].content, "r".repeat(9000));
}

#[test]
fn a_conversation_is_told() {
    let mut db = Database::new();
    db.create_conversation_at(Some("x"), "c", "t").unwrap();
    db.create_conversation_at(Some("y"), "d", "t").unwrap();
    db.set_setting("core_persona_prompt", " be kind ");
    let mut o = db.get_conversation_chat_overrides("c");
    o.system_prompt = "rules".to_string();
    db.set_conversation_overrides_at("c", &o, "t");
    db.upsert_memory_at("likes green tea a lot", 5, "global", None, None, None, "g", "t").unwrap();
    db.upsert_memory_at("green tea secret of y", 5, "conversation", Some("d"), None, None, "l", "t").unwrap();
    db.append_summary_segment_at("c", " first part ", "", "", "", "", 1, "s1", "t").unwrap();
    db.append_summary_segment_at("c", "second part", "", "", "", "", 1, "s2", "t").unwrap();
    db.add_conversation_file_at("c", "n.txt", "p", 3, "whole text", "gist", "f1", "t", "t").unwrap();
    db.add_conversation_file_at("d", "o.txt", "p", 3, "other text", "other gist", "f2", "t", "t").unwrap();
    let usage = TokenUsage { prompt: 0, completion: 0, total: 0 };
    db.add_message_at("c", "user", "do I like green tea?", "", &usage, "m1", "t1", "t").unwrap();

    let out = build_context_at(&mut db, "c", "do I like green tea?", &settings(), &vec![], false, "now");
    assert_eq!(out.len(), 2);
    assert_eq!(out[1].content, "do I like green tea?");
    let system = &out[0].content;
    let parts: Vec<&str> = system.split("\n\n").collect();
    assert_eq!(parts[0], "[Conversation System Prompt]\nrules");
    assert_eq!(parts[1], "be kind");
    assert!(parts[2].starts_with("[User Profile]\n- language_preference: auto"));
    assert_eq!(parts[3], "[Current Conversation TXT Attachments - Summaries]\n- n.txt (3 bytes): gist");
    assert_eq!(parts[4], "[Relevant Long-Term Memories]\n- (6) likes green tea a lot");
    assert_eq!(parts[5], "[Older Summaries]\n- seg#0 first part\n- seg#1 second part");
    assert_eq!(parts.len(), 6);
    assert_eq!(db.memories[0].importance, 6);
    assert_eq!(db.memories[1].importance, 5);

    let out = build_context_messages(&mut db, "c", "quote the file", &vec!["from disk".to_string()]);
    assert!(out[0].content.contains("Raw Excerpts On Demand]\n- n.txt (3 bytes)\n  summary: gist\n  excerpt:\nfrom disk"));
}

#[test]
fn no_memories_where_none_are_wanted() {
    let mut db = Database::new();
    db.create_conversation_at(Some("x"), "c", "t").unwrap();
    db.upsert_memory_at("likes green tea a lot", 5, "global", None, None, None, "g", "t").unwrap();
    let mut s = settings();
    s.max_memory_items = 0;
    let out = build_context_at(&mut db, "c", "green tea", &s, &vec![], false, "now");
    assert!(!out[0].content.contains("green tea"));
    assert_eq!(db.memories[0].importance, 5);
}

#[test]
fn settings_of_conversations_win() {
    let mut db = Database::new();
    db.create_conversation_at(Some("x"), "c", "t").unwrap();
    db.set_setting("api_key_deepseek", " k ");
    let c = conversation_config(&db, "c", &settings(), 7).unwrap();
    assert_eq!((c.api_key.as_str(), c.base_url.as_str()), ("k", "https://api.deepseek.com"));
    assert_eq!((c.model.as_str(), c.temperature, c.max_tokens), ("deepseek-v4-pro", 7, 4096));
    let mut o = db.get_conversation_chat_overrides("c");
    o.provider = "custom".to_string();
    o.model = " mine ".to_string();
    o.base_url = " http://y ".to_string();
    o.max_tokens = Some(1);
    db.set_conversation_overrides_at("c", &o, "t");
    let c = conversation_config(&db, "c", &settings(), 7).unwrap();
    assert_eq!((c.api_key.as_str(), c.base_url.as_str()), ("", "http://y"));
    assert_eq!((c.model.as_str(), c.max_tokens), ("mine", 256));
    assert_eq!(c.deepseek_thinking_type, None);
    assert!(c.include_temperature);
    assert_eq!(own_temperature(None, 3), 3);
    assert_eq!(own_temperature(Some(4), 3), 4);
}

#[test]
fn thinking_excludes_the_temperature() {
    let mut db = Database::new();
    db.create_conversation_at(Some("x"), "c", "t").unwrap();
    db.set_setting("api_key_deepseek", "k");
    let c = conversation_config(&db, "c", &settings(), 7).unwrap();
    assert_eq!(c.deepseek_thinking_type, Some("enabled".to_string()));
    assert_eq!(c.deepseek_reasoning_effort, Some("high".to_string()));
    assert!(!c.include_temperature);
    let mut o = db.get_conversation_chat_overrides("c");
    o.thinking = "disabled".to_string();
    o.reasoning_effort = "max".to_string();
    db.set_conversation_overrides_at("c", &o, "t");
    let c = conversation_config(&db, "c", &settings(), 7).unwrap();
    assert_eq!(c.deepseek_thinking_type, Some("disabled".to_string()));
    assert_eq!(c.deepseek_reasoning_effort, None);
    assert!(c.include_temperature);
    o.thinking = String::new();
    db.set_conversation_overrides_at("c", &o, "t");
    let c = conversation_config(&db, "c", &settings(), 7).unwrap();
    assert_eq!(c.deepseek_reasoning_effort, Some("max".to_string()));
    let mut s = settings();
    s.model = "deepseek-chat".to_string();
    assert_eq!(conversation_config(&db, "c", &s, 7).unwrap().deepseek_thinking_type, None);
}

#[test]
fn what_is_missing_is_said() {
    let db = Database::new();
    let mut s = settings();
    assert_eq!(
        conversation_config(&db, "c", &s, 7).err(),
        Some("missing DEEPSEEK API key, please save it in Settings first".to_string())
    );
    s.provider = "custom".to_string();
    s.base_url = " ".to_string();
    assert_eq!(
        conversation_config(&db, "c", &s, 7).err(),
        Some("provider 'custom' requires base_url; please set it in Settings".to_string())
    );
}
