use aipartner::db::{Database, DbError};
use aipartner::models::{ChatOverrides, TokenUsage};

fn usage() -> TokenUsage {
    TokenUsage { prompt: 1, completion: 2, total: 3 }
}

fn with_chats(ids: &[&str]) -> Database {
    let mut db = Database::new();
    for (n, id) in ids.iter().enumerate() {
        db.create_conversation_at(Some(id), id, &format!("t{n:02}")).unwrap();
    }
    db
}

fn order(db: &Database) -> Vec<String> {
    db.list_conversations("", -1).into_iter().map(|c| c.id).collect()
}

fn numbers(db: &Database) -> Vec<(String, i64)> {
    let mut v: Vec<(String, i64)> =
        db.conversations.iter().map(|c| (c.id.clone(), c.sort_index)).collect();
    v.sort_by_key(|x| x.1);
    v
}

#[test]
fn new_conversations_have_titles() {
    let mut db = Database::new();
    let c = db.create_conversation_at(Some("  "), "a", "t").unwrap();
    assert_eq!(c.title, "New Chat");
    assert_eq!(c.message_count, 0);
    assert_eq!(db.create_conversation_at(None, "b", "t").unwrap().title, "New Chat");
    assert_eq!(db.create_conversation_at(Some(" Hi "), "c", "t").unwrap().title, "Hi");
    assert_eq!(db.create_conversation_at(Some("x"), "a", "t").err(), Some(DbError::ConversationExists));
    assert_eq!(db.conversations.len(), 3);
}

#[test]
fn fresh_conversations_have_identifiers_and_times() {
    let mut db = Database::new();
    let a = db.create_conversation(None).unwrap();
    let b = db.create_conversation(None).unwrap();
    assert_ne!(a.id, b.id);
    assert_eq!(a.id.len(), 36);
    assert!(a.created_at.ends_with("+00:00"));
    assert_eq!(a.created_at, a.updated_at);
}

#[test]
fn numbers_run_from_one() {
    let db = with_chats(&["a", "b", "c"]);
    assert_eq!(numbers(&db).iter().map(|x| x.1).collect::<Vec<_>>(), vec![1, 2, 3]);
}

#[test]
fn pinned_conversations_come_first() {
    let mut db = with_chats(&["a", "b", "c"]);
    db.set_conversation_pinned_at("c", true, "t10");
    assert_eq!(order(&db)[0], "c");
    assert!(db.list_conversations("", -1)[0].is_pinned);
    db.set_conversation_pinned_at("a", true, "t11");
    assert_eq!(order(&db), vec!["c", "a", "b"]);
    let next = db.create_conversation_at(Some("d"), "d", "t12").unwrap();
    assert_eq!(next.id, "d");
    assert_eq!(order(&db), vec!["c", "a", "d", "b"]);
    db.set_conversation_pinned_at("c", false, "t13");
    assert_eq!(order(&db), vec!["a", "d", "b", "c"]);
}

#[test]
fn numbering_twice_is_numbering_once() {
    let mut db = with_chats(&["a", "b", "c", "d"]);
    db.set_conversation_pinned_at("b", true, "t9");
    let before = numbers(&db);
    db.normalize_conversation_sort_order();
    assert_eq!(numbers(&db), before);
}

#[test]
fn numbering_breaks_ties_by_time_and_identifier() {
    let mut db = with_chats(&["a", "b", "c"]);
    for c in db.conversations.iter_mut() {
        c.sort_index = 0;
        c.updated_at = "same".to_string();
        c.created_at = "same".to_string();
    }
    db.conversations[2].updated_at = "tame".to_string();
    db.normalize_conversation_sort_order();
    assert_eq!(order(&db), vec!["c", "a", "b"]);
}

#[test]
fn moving_exchanges_neighbours_and_back() {
    let mut db = with_chats(&["a", "b", "c"]);
    let before = order(&db);
    let first = before[0].clone();
    db.move_conversation(&first, " DOWN ");
    let after = order(&db);
    assert_eq!(after, vec![before[1].clone(), before[0].clone(), before[2].clone()]);
    db.move_conversation(&first, "up");
    assert_eq!(order(&db), before);
    db.move_conversation(&first, "up");
    assert_eq!(order(&db), before);
    db.move_conversation("missing", "down");
    assert_eq!(order(&db), before);
}

#[test]
fn moving_stays_within_its_group() {
    let mut db = with_chats(&["a", "b"]);
    db.set_conversation_pinned_at("a", true, "t5");
    assert_eq!(order(&db), vec!["a", "b"]);
    db.move_conversation("a", "down");
    db.move_conversation("b", "up");
    assert_eq!(order(&db), vec!["a", "b"]);
}

#[test]
fn searching_titles() {
    let mut db = with_chats(&["a", "b", "c"]);
    db.rename_conversation("a", " Holiday Plan ");
    db.rename_conversation("b", "holiday photos");
    let found: Vec<String> = db.list_conversations(" HOLIDAY ", -1).into_iter().map(|c| c.title).collect();
    assert_eq!(found.len(), 2);
    assert!(found.contains(&"Holiday Plan".to_string()));
    assert_eq!(db.list_conversations("p%s", -1).len(), 1);
    assert_eq!(db.list_conversations("", 2).len(), 2);
    assert_eq!(db.list_conversations("", 0).len(), 0);
}

#[test]
fn messages_are_counted_without_deleted_ones() {
    let mut db = with_chats(&["a"]);
    for n in 0..3 {
        db.add_message_at("a", "user", "x", "", &usage(), &format!("m{n}"), "t1", "t2").unwrap();
    }
    db.delete_message_at("m1", true, "", "t3", "t3");
    assert_eq!(db.list_conversations("", -1)[0].message_count, 2);
    assert_eq!(db.count_messages("a"), 2);
}

#[test]
fn deleting_takes_everything_but_memories() {
    let mut db = with_chats(&["a", "b"]);
    for c in ["a", "b"] {
        db.add_message_at(c, "user", "x", "", &usage(), &format!("m{c}"), "t1", "t2").unwrap();
        db.append_summary_segment_at(c, "s", "", "", "", "", 1, &format!("s{c}"), "t").unwrap();
        db.add_conversation_file_at(c, "f", "p", 1, "x", "y", &format!("f{c}"), "t", "t").unwrap();
    }
    db.upsert_memory_at("I like green tea", 6, "global", None, None, Some("a"), "g", "t").unwrap();
    db.upsert_memory_at("only in this chat", 6, "conversation", Some("a"), None, Some("a"), "l", "t").unwrap();
    db.delete_conversation("a");
    assert_eq!(db.conversations.len(), 1);
    assert_eq!(db.messages.len(), 1);
    assert_eq!(db.summaries.len(), 1);
    assert_eq!(db.files.len(), 1);
    assert_eq!(db.memories.len(), 2);
    let shown = db.list_memories(-1);
    assert_eq!(shown.len(), 1);
    assert_eq!(shown[0].id, "g");
    assert!(shown[0].source_conversation_deleted);
    db.delete_conversation("missing");
    assert_eq!(db.conversations.len(), 1);
}

#[test]
fn titles_are_given_where_there_are_none() {
    let mut db = with_chats(&["a"]);
    db.maybe_auto_title_at("a", "other", "t5");
    assert_eq!(db.conversations[0].title, "a");
    for unnamed in ["New Chat", "新对话", ""] {
        db.rename_conversation_at("a", unnamed, "t6");
        db.maybe_auto_title_at("a", " made up ", "t7");
        assert_eq!(db.conversations[0].title, " made up ");
        assert_eq!(db.conversations[0].updated_at, "t7");
    }
    db.maybe_auto_title("missing", "x");
    assert_eq!(db.conversations.len(), 1);
}

#[test]
fn settings_belong_to_one_conversation() {
    let mut db = with_chats(&["a", "b"]);
    db.set_conversation_chat_settings(
        "a",
        " openai ",
        " gpt ",
        " http://x ",
        Some(1065353216),
        Some(1000),
        Some(3000),
        Some(5),
        Some(2),
        Some(" rules "),
        Some("enabled"),
        None,
    );
    let o = db.get_conversation_chat_overrides("a");
    assert_eq!(o.provider, "openai");
    assert_eq!(o.model, "gpt");
    assert_eq!(o.base_url, "http://x");
    assert_eq!(o.temperature, Some(1065353216));
    assert_eq!(o.max_tokens, Some(1000));
    assert_eq!(o.max_context_tokens, Some(3000));
    assert_eq!(o.max_recent_messages, Some(5));
    assert_eq!(o.max_memory_items, Some(2));
    assert_eq!(o.system_prompt, "rules");
    assert_eq!(o.thinking, "enabled");
    assert_eq!(o.reasoning_effort, "");
    let none = |o: ChatOverrides| o.provider.is_empty() && o.max_tokens.is_none() && o.system_prompt.is_empty();
    assert!(none(db.get_conversation_chat_overrides("b")));
    assert!(none(db.get_conversation_chat_overrides("missing")));
    assert_eq!(db.memories.len(), 0);
    assert_eq!(db.summaries.len(), 0);
    db.set_conversation_model_at("b", " m ", "t8");
    assert_eq!(db.get_conversation_chat_overrides("b").model, "m");
    assert_eq!(db.get_conversation_chat_overrides("a").model, "gpt");
}

#[test]
fn searches_end_before_a_zero() {
    let mut db = with_chats(&["a"]);
    db.conversations[0].title = "tea\0coffee".to_string();
    assert_eq!(db.list_conversations("tea", -1).len(), 1);
    assert_eq!(db.list_conversations("coffee", -1).len(), 0);
    // What is left of the pattern is "%tea", which has to end the title.
    assert_eq!(db.list_conversations("tea\0x", -1).len(), 1);
    assert_eq!(db.list_conversations("te\0", -1).len(), 0);
}

#[test]
fn moving_changes_places_in_the_list() {
    let mut db = with_chats(&["a", "b", "c", "d", "e"]);
    db.set_conversation_pinned_at("b", true, "t90");
    db.set_conversation_pinned_at("d", true, "t91");
    let list = order(&db);
    let places = db.conversations.len();
    for k in 0..places {
        for down in [true, false] {
            let beside = if down { k + 1 } else { k.wrapping_sub(1) };
            let rows = db.list_conversations("", -1);
            let can = beside < places && rows[beside].is_pinned == rows[k].is_pinned;
            db.shift_conversation(&list[k], down);
            let mut want = list.clone();
            if can {
                want.swap(k, beside);
            }
            assert_eq!(order(&db), want);
            if can {
                db.shift_conversation(&list[k], !down);
                assert_eq!(order(&db), list);
            }
        }
    }
    db.shift_conversation("none", true);
    assert_eq!(order(&db), list);
}

#[test]
fn pinning_leaves_the_others_in_order() {
    for pinned in [true, false] {
        for id in ["a", "b", "c", "d", "e"] {
            let mut db = with_chats(&["a", "b", "c", "d", "e"]);
            db.set_conversation_pinned_at("b", true, "t90");
            db.set_conversation_pinned_at("d", true, "t91");
            let others = |db: &Database| -> Vec<String> {
                order(db).into_iter().filter(|x| x != id).collect()
            };
            let before = others(&db);
            db.set_conversation_pinned_at(id, pinned, "t92");
            assert_eq!(others(&db), before);
            let rows = db.list_conversations("", -1);
            let split = rows.iter().take_while(|c| c.is_pinned).count();
            assert!(rows[split..].iter().all(|c| !c.is_pinned));
            if pinned {
                assert_eq!(rows[split - 1].id, id);
            } else {
                assert_eq!(rows.last().unwrap().id, id);
            }
        }
    }
    let mut db = with_chats(&["a", "b", "c"]);
    db.set_conversation_pinned_at("a", true, "t90");
    db.set_conversation_pinned_at("b", true, "t91");
    assert_eq!(order(&db), vec!["a", "b", "c"]);
    db.delete_conversation("a");
    db.set_conversation_pinned_at("c", true, "t92");
    assert_eq!(order(&db), vec!["c", "b"]);
}
