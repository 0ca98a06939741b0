use std::collections::HashSet;

use aipartner::api::reply::Completion;
use aipartner::chat::build_context_messages;
use aipartner::commands::{delete_message, prepare_edit, update_memory_scope};
use aipartner::db::ordering::leaves_room;
use aipartner::db::Database;
use aipartner::importer::import_conversations_json;
use aipartner::models::{DeleteMessageInput, EditMessageInput, TokenUsage, UpdateMemoryScopeInput};
use aipartner::state::AppState;

fn different(keys: Vec<String>) -> bool {
    let n = keys.len();
    keys.into_iter().collect::<HashSet<_>>().len() == n
}

fn sound(db: &Database) {
    assert!(different(db.settings.iter().map(|x| x.key.clone()).collect()));
    assert!(different(db.conversations.iter().map(|x| x.id.clone()).collect()));
    assert!(different(db.messages.iter().map(|x| x.id.clone()).collect()));
    assert!(different(db.memories.iter().map(|x| x.id.clone()).collect()));
    assert!(different(db.summaries.iter().map(|x| x.id.clone()).collect()));
    assert!(different(
        db.summaries.iter().map(|x| format!("{} {}", x.segment_index, x.conversation_id)).collect()
    ));
    assert!(different(db.files.iter().map(|x| x.id.clone()).collect()));
    let ids: HashSet<String> = db.conversations.iter().map(|x| x.id.clone()).collect();
    assert!(db.messages.iter().all(|x| ids.contains(&x.conversation_id)));
    assert!(db.summaries.iter().all(|x| ids.contains(&x.conversation_id)));
    assert!(db.files.iter().all(|x| ids.contains(&x.conversation_id)));
    assert!(db.memories.iter().all(|x| (1..=10).contains(&x.importance)));
    assert!(leaves_room(&db.conversations));
}

#[test]
fn every_operation_keeps_soundness() {
    let none = TokenUsage { prompt: 0, completion: 0, total: 0 };
    let mut s = AppState { db: Database::new(), generation_flags: Vec::new() };
    s.db.prepare();
    s.db.set_setting("api_key_deepseek", "k");
    sound(&s.db);
    let a = s.db.create_conversation(Some("a")).unwrap().id;
    let b = s.db.create_conversation(Some("b")).unwrap().id;
    sound(&s.db);
    for n in 0..40 {
        let text = format!("Remember that number {n} is my long-term goal, please");
        s.begin_generation(&a, &text, true, None, 0).unwrap();
        sound(&s.db);
        build_context_messages(&mut s.db, &a, &text, &vec![]);
        let reply = Completion { content: format!("answer {n} to that"), reasoning: String::new(), usage: none };
        s.finish_generation(&a, &text, reply).unwrap();
        sound(&s.db);
        let ages = s.db.memories.iter().map(|_| Some(n * 86_400_000 * 10)).collect();
        s.db.decay_memories(&ages);
        sound(&s.db);
    }
    assert!(!s.db.summaries.is_empty());
    s.db.add_conversation_file(&b, "n", "p", 1, "x", "y").unwrap();
    s.db.set_conversation_pinned(&b, true);
    s.db.move_conversation(&a, "up");
    sound(&s.db);
    let ids: Vec<String> = s.db.memories.iter().map(|m| m.id.clone()).collect();
    for (n, id) in ids.iter().enumerate() {
        let input = UpdateMemoryScopeInput {
            memory_id: id.clone(),
            conversation_id: Some(b.clone()),
            make_global: n % 2 == 0,
        };
        let _ = update_memory_scope(&mut s.db, &input);
        sound(&s.db);
    }
    let first = s.db.all_messages(&a)[4].id.clone();
    let input = DeleteMessageInput { message_id: first, soft: None, reason: None };
    assert!(delete_message(&mut s.db, &input));
    sound(&s.db);
    let user = s.db.all_messages(&a).into_iter().rfind(|m| m.role == "user").unwrap().id;
    prepare_edit(&mut s.db, &EditMessageInput { message_id: user, new_content: "x".to_string() }).unwrap();
    sound(&s.db);
    import_conversations_json(&mut s.db, r#"[{"title": "t"}, {"title": "u"}]"#).unwrap();
    sound(&s.db);
    s.db.delete_conversation(&a);
    sound(&s.db);
}

#[test]
fn few_messages_are_told() {
    let none = TokenUsage { prompt: 0, completion: 0, total: 0 };
    let mut db = Database::new();
    db.create_conversation_at(None, "c", "t").unwrap();
    for n in 0..90 {
        db.add_message_at("c", "user", "hi", "", &none, &format!("m{n}"), &format!("t{n:03}"), "t").unwrap();
    }
    let mut o = db.get_conversation_chat_overrides("c");
    o.max_recent_messages = Some(1000);
    db.set_conversation_overrides_at("c", &o, "t");
    let told = build_context_messages(&mut db, "c", "what now", &vec![]);
    assert_eq!(told.len(), 50);
    assert_eq!(told[49].content, "what now");
}

#[test]
fn other_conversations_are_left_alone() {
    let none = TokenUsage { prompt: 0, completion: 0, total: 0 };
    let mut db = Database::new();
    for c in ["a", "b"] {
        db.create_conversation_at(Some(c), c, "t").unwrap();
        db.add_message_at(c, "user", "hi", "", &none, &format!("m{c}"), "t1", "t").unwrap();
        db.upsert_memory_at(&format!("green tea of chat {c}"), 5, "conversation", Some(c), None, None, &format!("l{c}"), "t")
            .unwrap();
    }
    db.delete_conversation("a");
    assert_eq!(db.all_messages("b").len(), 1);
    let found = db.search_memories_at("green tea", Some("b"), 9, "t");
    assert_eq!(found.len(), 1);
    assert_eq!(found[0].id, "lb");
}
