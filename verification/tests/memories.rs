use aipartner::db::upkeep::looks_faint;
use aipartner::db::{Database, DbError};
use aipartner::models::{MemoryRow, TokenUsage};

fn with_chats() -> Database {
    let mut db = Database::new();
    db.create_conversation_at(Some("One"), "c1", "t").unwrap();
    db.create_conversation_at(Some("Two"), "c2", "t").unwrap();
    db
}

fn global(db: &mut Database, text: &str, importance: i64, id: &str, now: &str) {
    db.upsert_memory_at(text, importance, "global", None, None, None, id, now).unwrap();
}

fn row(id: &str, content: &str, importance: i64) -> MemoryRow {
    MemoryRow {
        id: id.to_string(),
        content: content.to_string(),
        normalized_content: content.to_lowercase().replace(' ', ""),
        importance,
        created_at: "t".to_string(),
        updated_at: "t".to_string(),
        last_used_at: "t".to_string(),
        scope: "global".to_string(),
        conversation_id: None,
        source_message_id: None,
        source_conversation_id: None,
    }
}

#[test]
fn short_and_empty_texts_are_not_remembered() {
    let mut db = with_chats();
    global(&mut db, "  tea  ", 6, "a", "t");
    global(&mut db, "., ;: !?", 6, "a", "t");
    assert_eq!(db.memories.len(), 0);
}

#[test]
fn new_memories_are_added() {
    let mut db = with_chats();
    db.upsert_memory_at(" I like Green Tea. ", 60, " CONVERSATION ", Some(" c1 "), Some(" m "), Some(" "), "a", "t1")
        .unwrap();
    let m = &db.memories[0];
    assert_eq!(m.id, "a");
    assert_eq!(m.content, "I like Green Tea.");
    assert_eq!(m.normalized_content, "ilikegreentea");
    assert_eq!(m.importance, 10);
    assert_eq!(m.scope, "conversation");
    assert_eq!(m.conversation_id, Some("c1".to_string()));
    assert_eq!(m.source_message_id, Some("m".to_string()));
    assert_eq!(m.source_conversation_id, None);
    assert_eq!(m.created_at, "t1");
    assert_eq!(
        db.upsert_memory_at("something else entirely", 6, "x", Some("c1"), None, None, "a", "t").err(),
        Some(DbError::MemoryExists)
    );
    assert_eq!(db.memories.len(), 1);
}

#[test]
fn texts_of_little_value_weigh_less() {
    let mut db = with_chats();
    global(&mut db, "abcdefg", 6, "a", "t");
    assert_eq!(db.memories[0].importance, 4);
    global(&mut db, "zyxwvu", 1, "b", "t");
    assert_eq!(db.memories[1].importance, 1);
}

#[test]
fn same_words_are_worked_in() {
    let mut db = with_chats();
    global(&mut db, "I like green tea", 6, "a", "t1");
    db.upsert_memory_at("i LIKE green tea!", 9, "global", None, Some("m2"), Some("c2"), "b", "t2").unwrap();
    assert_eq!(db.memories.len(), 1);
    let m = &db.memories[0];
    assert_eq!(m.id, "a");
    assert_eq!(m.content, "I like green tea；i LIKE green tea!");
    assert_eq!(m.normalized_content, "ilikegreentea");
    assert_eq!(m.importance, (6 * 3 + 9 * 2) / 5 + 1);
    assert_eq!(m.source_message_id, Some("m2".to_string()));
    assert_eq!((m.created_at.as_str(), m.updated_at.as_str(), m.last_used_at.as_str()), ("t1", "t2", "t2"));
    global(&mut db, "I like green tea", 6, "c", "t3");
    assert_eq!(db.memories.len(), 1);
    assert_eq!(db.memories[0].source_message_id, Some("m2".to_string()));
}

#[test]
fn alike_texts_are_worked_in() {
    let mut db = with_chats();
    global(&mut db, "I like green tea very much", 5, "a", "t1");
    global(&mut db, "like green tea", 5, "b", "t2");
    assert_eq!(db.memories.len(), 1);
    assert_eq!(db.memories[0].content, "I like green tea very much");
    global(&mut db, "qqqq wwww zzzz", 5, "c", "t3");
    assert_eq!(db.memories.len(), 2);
}

#[test]
fn scopes_do_not_mix() {
    let mut db = with_chats();
    let text = "I like green tea";
    db.upsert_memory_at(text, 5, "conversation", Some("c1"), None, None, "a", "t").unwrap();
    db.upsert_memory_at(text, 5, "conversation", Some("c2"), None, None, "b", "t").unwrap();
    db.upsert_memory_at(text, 5, "conversation", None, None, None, "c", "t").unwrap();
    db.upsert_memory_at(text, 5, "global", Some("c1"), None, None, "d", "t").unwrap();
    assert_eq!(db.memories.len(), 4);
    assert_eq!(db.memories[3].conversation_id, None);
    assert!(db.memories.iter().all(|m| m.content == text && m.importance == 5));
}

#[test]
fn fresh_memories_get_identifiers() {
    let mut db = with_chats();
    db.upsert_memory("I like green tea", 5, "global", None, None, None).unwrap();
    assert_eq!(db.memories[0].id.len(), 36);
    assert!(db.memories[0].created_at.ends_with("+00:00"));
}

#[test]
fn lists_show_what_is_live() {
    let mut db = with_chats();
    db.upsert_memory_at("memory for all chats", 5, "global", None, None, None, "g", "t1").unwrap();
    db.upsert_memory_at("memory of the first", 9, "conversation", Some("c1"), None, None, "l1", "t1").unwrap();
    db.upsert_memory_at("zzz qqq www xxx", 5, "conversation", Some("c2"), None, None, "l2", "t2").unwrap();
    db.upsert_memory_at("memory of nowhere", 5, "conversation", Some("gone"), None, None, "l3", "t2").unwrap();
    let ids = |v: Vec<aipartner::models::Memory>| v.into_iter().map(|m| m.id).collect::<Vec<_>>();
    assert_eq!(ids(db.list_memories(-1)), vec!["l1", "l2", "g"]);
    assert_eq!(ids(db.list_memories(1)), vec!["l1"]);
    assert_eq!(ids(db.list_memories_for_conversation(" c2 ", -1)), vec!["l2", "g"]);
    assert_eq!(ids(db.list_memories_for_conversation("  ", -1)), vec!["l1", "l2", "g"]);
}

#[test]
fn sources_are_shown() {
    let mut db = with_chats();
    let long = "x".repeat(300);
    let usage = TokenUsage { prompt: 0, completion: 0, total: 0 };
    db.add_message_at("c1", "user", &long, "", &usage, "m1", "t", "t").unwrap();
    db.upsert_memory_at("first memory text", 5, "global", None, Some("m1"), Some("c1"), "a", "t").unwrap();
    db.upsert_memory_at("QQQ WWW ZZZ VVV", 5, "global", None, Some("gone"), Some("gone"), "b", "t").unwrap();
    db.upsert_memory_at("jjj kkk lll hhh", 5, "global", None, None, None, "c", "t").unwrap();
    let shown = db.list_memories(-1);
    let a = shown.iter().find(|m| m.id == "a").unwrap();
    assert_eq!(a.source_conversation_title, Some("One".to_string()));
    assert_eq!(a.source_message_preview, Some("x".repeat(200)));
    assert!(!a.source_conversation_deleted && !a.source_message_deleted);
    let b = shown.iter().find(|m| m.id == "b").unwrap();
    assert_eq!(b.source_conversation_title, None);
    assert!(b.source_conversation_deleted && b.source_message_deleted);
    let c = shown.iter().find(|m| m.id == "c").unwrap();
    assert!(!c.source_conversation_deleted && !c.source_message_deleted);
    db.delete_message_at("m1", true, "", "t9", "t9");
    assert!(db.list_memories(-1).iter().find(|m| m.id == "a").unwrap().source_message_deleted);
}

#[test]
fn searching_ranks_and_raises() {
    let mut db = with_chats();
    db.memories.push(row("far", "zzzzzzzzzz", 9));
    db.memories.push(row("near", "green tea is good", 3));
    db.memories.push(row("top", "green tea", 10));
    let found = db.search_memories_at(" green tea ", None, 2, "now");
    assert_eq!(found.iter().map(|m| m.id.as_str()).collect::<Vec<_>>(), vec!["top", "near"]);
    assert_eq!(found[0].importance, 10);
    assert_eq!(found[1].importance, 4);
    assert_eq!(found[1].last_used_at, "now");
    assert_eq!(db.memories[1].importance, 4);
    assert_eq!(db.memories[1].last_used_at, "now");
    assert_eq!(db.memories[0].importance, 9);
    assert_eq!(db.memories[0].last_used_at, "t");
    assert_eq!(db.search_memories_at("  ", None, 5, "later").len(), 0);
    assert_eq!(db.search_memories_at("tea", None, -1, "later").len(), 0);
    assert_eq!(db.search_memories("tea", None, 1).len(), 1);
}

#[test]
fn scores_count_scope_and_length() {
    let mut db = with_chats();
    let mut own = row("own", "bbbbbbbb", 1);
    own.scope = "conversation".to_string();
    own.conversation_id = Some("c1".to_string());
    db.memories.push(row("plain", "cccccccc", 1));
    db.memories.push(row("long", &"d".repeat(161), 1));
    db.memories.push(own);
    let found = db.search_memories_at("xyz", Some("c1"), 9, "now");
    assert_eq!(found.iter().map(|m| m.id.as_str()).collect::<Vec<_>>(), vec!["own", "long", "plain"]);
}

#[test]
fn other_conversations_are_not_recalled() {
    let mut db = with_chats();
    db.upsert_memory_at("the secret of the first", 9, "conversation", Some("c1"), None, None, "l", "t").unwrap();
    assert_eq!(db.search_memories_at("secret", Some(" c1 "), 9, "t").len(), 1);
    assert_eq!(db.search_memories_at("secret", Some("c2"), 9, "t").len(), 0);
    assert_eq!(db.search_memories_at("secret", None, 9, "t").len(), 0);
    db.delete_conversation("c1");
    assert_eq!(db.search_memories_at("secret", Some("c1"), 9, "t").len(), 0);
    assert_eq!(db.memories.len(), 1);
}

#[test]
fn scopes_are_changed() {
    let mut db = with_chats();
    global(&mut db, "I like green tea", 5, "a", "t1");
    assert_eq!(db.set_memory_scope_at("x", true, None, "t").err(), Some(DbError::MemoryNotFound));
    assert_eq!(db.set_memory_scope_at("a", false, Some(" "), "t").err(), Some(DbError::ConversationRequired));
    db.set_memory_scope_at("a", true, None, "t2").unwrap();
    assert_eq!(db.memories[0].updated_at, "t1");
    db.set_memory_scope_at("a", false, Some(" c1 "), "t3").unwrap();
    assert_eq!(db.memories[0].scope, "conversation");
    assert_eq!(db.memories[0].conversation_id, Some("c1".to_string()));
    assert_eq!(db.memories[0].updated_at, "t3");
    db.set_memory_scope_at("a", false, None, "t4").unwrap();
    assert_eq!(db.memories[0].updated_at, "t3");
    db.set_memory_scope("a", true, Some("c2")).unwrap();
    assert_eq!(db.memories[0].scope, "global");
    assert_eq!(db.memories[0].conversation_id, None);
}

#[test]
fn moved_memories_are_taken_in() {
    let mut db = with_chats();
    db.upsert_memory_at("I like green tea", 8, "conversation", Some("c1"), None, None, "a", "t1").unwrap();
    global(&mut db, "I LIKE green tea", 5, "b", "t2");
    db.set_memory_scope_at("a", true, None, "t3").unwrap();
    assert_eq!(db.memories.len(), 1);
    let m = &db.memories[0];
    assert_eq!(m.id, "b");
    assert_eq!(m.content, "I LIKE green tea；I like green tea");
    assert_eq!(m.normalized_content, "ilikegreenteailikegreentea");
    assert_eq!(m.importance, 9);
    assert_eq!(m.updated_at, "t3");
}

#[test]
fn memories_fade() {
    let day: i64 = 86_400_000;
    let mut db = with_chats();
    db.memories.push(row("short", "  abc  ", 5));
    db.memories.push(row("old", "long enough text", 5));
    db.memories.push(row("gone", "long enough text", 1));
    db.memories.push(row("kept", "long enough text", 1));
    db.memories.push(row("both", "abc", 3));
    db.memories.push(row("two", "long enough text", 2));
    db.memories[3].normalized_content = "ok".to_string();
    let ages = vec![
        None,
        Some(45 * day + 1),
        Some(180 * day + 1),
        Some(180 * day),
        Some(200 * day),
        Some(46 * day),
    ];
    db.decay_memories_at(&ages, "now");
    let got: Vec<(&str, i64)> = db.memories.iter().map(|m| (m.id.as_str(), m.importance)).collect();
    assert_eq!(got, vec![("short", 4), ("old", 4), ("kept", 1), ("both", 2), ("two", 2)]);
    assert_eq!(db.memories[0].updated_at, "now");
    assert_eq!(db.memories[2].updated_at, "t");
    assert_eq!(db.memories[0].last_used_at, "t");
    db.decay_memories(&vec![]);
    assert_eq!(db.memories[0].importance, 3);
}

#[test]
fn forms_without_noise_are_taken_anew() {
    let mut db = with_chats();
    db.memories.push(row("a", "Green Tea!", 5));
    db.memories[0].normalized_content = "stale".to_string();
    db.rebuild_memory_normalized_cache();
    assert_eq!(db.memories[0].normalized_content, "greentea");
}

#[test]
fn importance_stays_in_range() {
    let mut db = with_chats();
    for n in [i64::MIN, -3, 0, 11, i64::MAX] {
        global(&mut db, "I like green tea", n, "a", "t");
        assert!((1..=10).contains(&db.memories[0].importance));
    }
    db.memories[0].importance = i64::MAX;
    global(&mut db, "I like green tea", 1, "a", "t");
    assert_eq!(db.memories[0].importance, 10);
    db.memories[0].importance = i64::MIN;
    global(&mut db, "I like green tea", 10, "a", "t");
    assert_eq!(db.memories[0].importance, 2);
}

#[test]
fn previews_and_lengths_end_before_a_zero() {
    let mut db = with_chats();
    let none = TokenUsage { prompt: 0, completion: 0, total: 0 };
    db.add_message_at("c1", "user", "green\0tea", "", &none, "m1", "t", "t").unwrap();
    let mut m = row("x", "a long text\0", 5);
    m.source_message_id = Some("m1".to_string());
    let shown = db.show_memory(&m);
    assert_eq!(shown.source_message_preview, Some("green".to_string()));

    assert!(!looks_faint(&row("x", "12345678\0", 5)));
    assert!(looks_faint(&row("x", "1234567\0and much more", 5)));
    assert!(looks_faint(&row("x", "  \0  and much more", 5)));
    assert!(!looks_faint(&row("x", "  12345678  ", 5)));
    assert!(looks_faint(&row("x", "  1234567  ", 5)));
}
