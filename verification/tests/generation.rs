use aipartner::api::reply::Completion;
use aipartner::db::Database;
use aipartner::learning::{maybe_extract_memories, maybe_update_summary, update_profiles_from_user_text};
use aipartner::models::TokenUsage;
use aipartner::state::{mark_stopped, normalize_title, AppState};

fn none() -> TokenUsage {
    TokenUsage { prompt: 0, completion: 0, total: 0 }
}

fn state() -> AppState {
    let mut db = Database::new();
    db.create_conversation_at(None, "c", "t").unwrap();
    db.set_setting("api_key_deepseek", "k");
    AppState { db, generation_flags: Vec::new() }
}

fn reply(content: &str) -> Completion {
    Completion { content: content.to_string(), reasoning: "r".to_string(), usage: none() }
}

#[test]
fn flags_of_conversations() {
    let mut s = state();
    assert!(!s.is_generating("c"));
    assert!(!s.stop_generation("c"));
    s.register_generation("c");
    s.register_generation("d");
    assert!(s.is_generating("c") && !s.is_stopped("c"));
    assert!(s.stop_generation("c"));
    assert!(s.is_stopped("c") && !s.is_stopped("d"));
    s.register_generation("c");
    assert!(!s.is_stopped("c"));
    s.clear_generation("c");
    assert!(!s.is_generating("c") && s.is_generating("d"));
    assert!(!aipartner::commands::stop_generation(&mut s, " c "));
    assert!(aipartner::commands::stop_generation(&mut s, " d "));
}

#[test]
fn titles_come_from_what_is_said() {
    assert_eq!(normalize_title("  one\ntwo "), "one two");
    assert_eq!(normalize_title(" \n "), "New Chat");
    assert_eq!(normalize_title(&"x".repeat(50)), "x".repeat(36));
}

#[test]
fn stopped_answers_are_kept() {
    assert_eq!(mark_stopped("half".to_string(), true), "half\n\n[Generation stopped]");
    assert_eq!(mark_stopped("  ".to_string(), true), "Generation stopped.");
    assert_eq!(mark_stopped("  ".to_string(), false), "  ");
}

#[test]
fn answers_begin_and_end() {
    let mut s = state();
    let text = "Please remember that I like green tea";
    let started = s.begin_generation("c", text, true, None, 0).unwrap();
    assert!(started.fade);
    assert_eq!(started.config.model, "deepseek-chat");
    assert_eq!(started.request_id.len(), 36);
    assert!(s.is_generating("c"));
    let m = s.db.get_message(&started.user_message_id).unwrap();
    assert_eq!((m.role.as_str(), m.content.as_str()), ("user", text));
    assert_eq!(s.db.memories.len(), 1);
    assert_eq!(s.db.memories[0].scope, "conversation");
    assert_eq!(s.db.memories[0].source_message_id, Some(started.user_message_id.clone()));
    assert_eq!(s.db.memories[0].source_conversation_id, Some("c".to_string()));
    assert!(s.db.style_profile.is_some());

    assert_eq!(
        s.begin_generation("c", text, true, None, 0).err(),
        Some("current conversation already has a running generation task".to_string())
    );
    assert_eq!(s.db.messages.len(), 1);

    let f = s.finish_generation("c", text, reply("Noted")).unwrap();
    assert_eq!(f.content, "Noted");
    assert!(!s.is_generating("c"));
    let m = s.db.get_message(&f.message_id).unwrap();
    assert_eq!((m.role.as_str(), m.content.as_str(), m.reasoning_content.as_str()), ("assistant", "Noted", "r"));
    assert_eq!(s.db.conversations[0].title, "Please remember that I like green te");
    assert_eq!(s.db.get_setting("last_conversation_id", ""), "c");
}

#[test]
fn stopped_answers_are_marked() {
    let mut s = state();
    s.begin_generation("c", "hello there", true, None, 0).unwrap();
    s.stop_generation("c");
    let f = s.finish_generation("c", "hello there", reply("half")).unwrap();
    assert_eq!(f.content, "half\n\n[Generation stopped]");
}

#[test]
fn answers_that_cannot_begin() {
    let mut s = state();
    s.db.set_setting("api_key_deepseek", " ");
    assert!(s.begin_generation("c", "hi", true, None, 0).is_err());
    assert!(!s.is_generating("c"));
    assert_eq!(s.db.messages.len(), 0);
    s.db.set_setting("api_key_deepseek", "k");
    assert_eq!(
        s.begin_generation("gone", "hi", true, None, 0).err(),
        Some("FOREIGN KEY constraint failed".to_string())
    );
    assert!(!s.is_generating("gone"));
    let started = s.begin_generation("c", "hi", false, Some("m7"), 0).unwrap();
    assert_eq!(started.user_message_id, "m7");
    assert!(!started.fade);
    assert_eq!(s.db.messages.len(), 0);
    s.fail_generation("c");
    assert!(!s.is_generating("c"));
}

#[test]
fn answers_that_cannot_be_stored() {
    let mut s = state();
    s.begin_generation("c", "hi", true, None, 0).unwrap();
    s.db.delete_conversation("c");
    assert_eq!(
        s.finish_generation("c", "hi", reply("x")).err(),
        Some("FOREIGN KEY constraint failed".to_string())
    );
    assert!(s.is_generating("c"));
}

#[test]
fn profiles_learn() {
    let mut s = state();
    update_profiles_from_user_text(&mut s.db, "   ");
    assert!(s.db.user_profile.is_none());
    update_profiles_from_user_text(&mut s.db, "叫我小明，\n以后用中文回答");
    let u = s.db.user_profile.as_ref().unwrap();
    assert_eq!(u.preferred_name, "小明");
    assert_eq!(u.language_preference, "zh");
    assert_eq!(u.long_term_goals, "叫我小明， 以后用中文回答");
}

#[test]
fn memories_are_extracted() {
    let mut s = state();
    assert_eq!(maybe_extract_memories(&mut s.db, Some("c"), Some("m"), "how are you today my friend"), Ok(false));
    let text = "永久记住我最重要的目标是学英语. Remember the blue house by the lake";
    assert_eq!(maybe_extract_memories(&mut s.db, Some("c"), None, text), Ok(true));
    assert_eq!(s.db.memories.len(), 2);
    assert_eq!((s.db.memories[0].scope.as_str(), s.db.memories[0].importance), ("global", 9));
    assert_eq!(s.db.memories[0].source_conversation_id, Some("c".to_string()));
    assert_eq!((s.db.memories[1].scope.as_str(), s.db.memories[1].importance), ("conversation", 6));
}

#[test]
fn long_conversations_are_summarised() {
    let mut s = state();
    for k in 0..45 {
        s.db.add_message_at(
            "c",
            "user",
            &format!("this is message number {k}"),
            "",
            &none(),
            &format!("m{k}"),
            &format!("t{k:03}"),
            "t",
        )
        .unwrap();
    }
    maybe_update_summary(&mut s.db, "c").unwrap();
    let segs = s.db.list_summary_segments("c", 9);
    assert_eq!(segs.len(), 2);
    assert_eq!(segs[1].covered_start_message_id, "m0");
    assert_eq!(segs[1].covered_end_message_id, "m17");
    assert_eq!(segs[0].covered_start_created_at, "t018");
    assert_eq!(segs[0].covered_end_created_at, "t026");
    assert_eq!(segs[0].source_message_count, 9);
    maybe_update_summary(&mut s.db, "c").unwrap();
    assert_eq!(s.db.summaries.len(), 2);
    s.db.delete_message_at("m3", true, "", "t", "t");
    assert_eq!(s.db.summaries.len(), 0);
    maybe_update_summary(&mut s.db, "c").unwrap();
    assert!(s.db.list_summary_segments("c", 9)[1].summary.contains("message number 2"));
    assert!(!s.db.list_summary_segments("c", 9)[1].summary.contains("number 3\n"));
}

#[test]
fn teaching_twice_is_teaching_once() {
    let mut db = Database::new();
    update_profiles_from_user_text(&mut db, " \n ");
    assert!(db.user_profile.is_none() && db.style_profile.is_none());
    for text in [
        "Call me Bob. Please remember: my long-term goal is to learn Rust, answer in English",
        "请用中文回答，叫我小明，我喜欢喝茶",
        "be concise, no, be detailed",
    ] {
        update_profiles_from_user_text(&mut db, text);
        let user = db.get_user_profile();
        let style = db.get_style_profile();
        update_profiles_from_user_text(&mut db, text);
        let mut user_again = db.get_user_profile();
        let mut style_again = db.get_style_profile();
        user_again.updated_at = user.updated_at.clone();
        style_again.updated_at = style.updated_at.clone();
        assert_eq!(format!("{user_again:?}"), format!("{user:?}"));
        assert_eq!(format!("{style_again:?}"), format!("{style:?}"));
    }
    assert_eq!(db.get_user_profile().preferred_name, "小明");
}

#[test]
fn answers_use_the_stored_settings() {
    let mut s = state();
    s.db.set_setting("provider", "ollama");
    s.db.set_setting("model", "llama");
    s.db.set_setting("max_tokens", "777");
    let config = s.check_start("c", 9).unwrap();
    assert_eq!((config.model.as_str(), config.max_tokens, config.temperature), ("llama", 777, 9));
    let started = s.begin_generation("c", "hi", true, None, 9).unwrap();
    assert_eq!(started.config.base_url, "http://127.0.0.1:11434/v1");
    assert_eq!(started.config.max_tokens, 777);
}
