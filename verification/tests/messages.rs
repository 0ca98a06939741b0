use aipartner::db::{Database, DbError};
use aipartner::models::TokenUsage;

fn none() -> TokenUsage {
    TokenUsage { prompt: 0, completion: 0, total: 0 }
}

fn talk(n: usize) -> Database {
    let mut db = Database::new();
    db.create_conversation_at(None, "c", "t").unwrap();
    db.create_conversation_at(None, "d", "t").unwrap();
    for k in 0..n {
        db.add_message_at(
            "c",
            if k % 2 == 0 { "user" } else { "assistant" },
            &format!("text {k}"),
            "",
            &none(),
            &format!("m{k}"),
            &format!("2024-01-01T00:00:{k:02}+00:00"),
            &format!("u{k}"),
        )
        .unwrap();
    }
    db
}

fn ids(v: Vec<aipartner::models::Message>) -> Vec<String> {
    v.into_iter().map(|m| m.id).collect()
}

#[test]
fn pages_are_counted_from_the_newest() {
    let db = talk(5);
    assert_eq!(ids(db.list_messages("c", 2, 0)), vec!["m3", "m4"]);
    assert_eq!(ids(db.list_messages("c", 2, 2)), vec!["m1", "m2"]);
    assert_eq!(ids(db.list_messages("c", 2, 4)), vec!["m0"]);
    assert_eq!(ids(db.list_messages("c", 2, 9)), Vec::<String>::new());
    assert_eq!(ids(db.list_messages("c", -1, -3)), vec!["m0", "m1", "m2", "m3", "m4"]);
    assert_eq!(ids(db.get_recent_messages("c", 3)), vec!["m2", "m3", "m4"]);
    assert_eq!(ids(db.get_recent_messages("c", 0)), Vec::<String>::new());
    assert_eq!(ids(db.get_recent_messages("d", 3)), Vec::<String>::new());
}

#[test]
fn messages_come_in_the_order_of_writing() {
    let mut db = talk(2);
    db.add_message_at("c", "user", "early", "", &none(), "e", "2023-12-31T00:00:00+00:00", "t").unwrap();
    assert_eq!(ids(db.all_messages("c")), vec!["e", "m0", "m1"]);
}

#[test]
fn messages_after_a_time() {
    let db = talk(4);
    assert_eq!(ids(db.list_messages_after("c", None, 9)), vec!["m0", "m1", "m2", "m3"]);
    assert_eq!(ids(db.list_messages_after("c", Some(" "), 2)), vec!["m0", "m1"]);
    assert_eq!(
        ids(db.list_messages_after("c", Some("2024-01-01T00:00:01+00:00"), 9)),
        vec!["m2", "m3"]
    );
    assert_eq!(ids(db.list_messages_after("c", None, 0)), vec!["m0"]);
}

#[test]
fn refused_messages_change_nothing() {
    let mut db = talk(1);
    assert_eq!(
        db.add_message_at("gone", "user", "x", "", &none(), "n", "t", "t").err(),
        Some(DbError::NoConversation)
    );
    assert_eq!(
        db.add_message_at("c", "user", "x", "", &none(), "m0", "t", "t").err(),
        Some(DbError::MessageExists)
    );
    assert_eq!(db.messages.len(), 1);
    assert_eq!(db.conversations[0].updated_at, "u0");
    assert_eq!(DbError::NoConversation.message(), "FOREIGN KEY constraint failed");
    assert_eq!(DbError::MessageExists.message(), "UNIQUE constraint failed: messages.id");
}

#[test]
fn fresh_messages_get_identifiers() {
    let mut db = talk(0);
    let usage = TokenUsage { prompt: 1, completion: 2, total: 3 };
    let id = db.add_message("c", "user", "hello", "why", &usage).unwrap();
    let m = db.get_message(&id).unwrap();
    assert_eq!((m.role.as_str(), m.content.as_str(), m.reasoning_content.as_str()), ("user", "hello", "why"));
    assert_eq!(m.token_usage, usage);
    assert_eq!(m.created_at, m.updated_at);
    assert!(m.created_at.ends_with("+00:00"));
    let other = db.insert_imported_message("c", "assistant", "hi", "", "1999").unwrap();
    assert_ne!(id, other);
    let m = db.get_message(&other).unwrap();
    assert_eq!(m.created_at, "1999");
    assert_eq!(m.token_usage, none());
    assert!(db.conversations[0].updated_at.ends_with("+00:00"));
    assert!(db.add_message("gone", "user", "x", "", &usage).is_err());
}

#[test]
fn contents_are_replaced() {
    let mut db = talk(2);
    db.update_message_content_at("m0", "new", "later");
    let m = db.get_message("m0").unwrap();
    assert_eq!((m.content.as_str(), m.updated_at.as_str()), ("new", "later"));
    db.delete_message_at("m1", true, "x", "t", "t");
    db.update_message_content_at("m1", "new", "later");
    assert_eq!(db.messages[1].content, "text 1");
}

#[test]
fn marked_messages_are_gone_from_view() {
    let mut db = talk(3);
    db.append_summary_segment_at("c", "s", "", "", "", "", 1, "s1", "t").unwrap();
    db.append_summary_segment_at("d", "s", "", "", "", "", 1, "s2", "t").unwrap();
    assert_eq!(db.delete_message_at("m1", true, " spam ", "now", "touched"), Some("c".to_string()));
    assert_eq!(db.messages.len(), 3);
    assert_eq!(db.messages[1].deleted_at, Some("now".to_string()));
    assert_eq!(db.messages[1].deleted_reason, "spam");
    assert_eq!(ids(db.all_messages("c")), vec!["m0", "m2"]);
    assert!(db.get_message("m1").is_none());
    assert_eq!(db.summaries.len(), 1);
    assert_eq!(db.summaries[0].conversation_id, "d");
    assert_eq!(db.conversations[0].updated_at, "touched");
}

#[test]
fn removed_messages_are_gone() {
    let mut db = talk(3);
    assert_eq!(db.delete_message_at("m1", false, "", "now", "touched"), Some("c".to_string()));
    assert_eq!(db.messages.len(), 2);
    assert_eq!(db.delete_message("m1", false, ""), None);
}

#[test]
fn truncation_removes_what_follows() {
    let mut db = talk(5);
    db.delete_message_at("m4", true, "", "t", "t");
    db.add_message_at("d", "user", "x", "", &none(), "other", "2025", "t").unwrap();
    assert_eq!(db.truncate_messages_after_at("m2", "t9"), Some("c".to_string()));
    assert_eq!(ids(db.all_messages("c")), vec!["m0", "m1", "m2"]);
    assert_eq!(db.messages.len(), 4);
    assert_eq!(ids(db.all_messages("d")), vec!["other"]);
    assert_eq!(db.truncate_messages_after("missing"), None);
    assert_eq!(db.truncate_messages_after("m4"), None);
}

#[test]
fn summaries_are_numbered() {
    let mut db = talk(0);
    for n in 0..3 {
        db.append_summary_segment_at("c", &format!("s{n}"), "a", "b", "ta", &format!("tb{n}"), n - 1, &format!("id{n}"), "now")
            .unwrap();
    }
    let all = db.list_summary_segments("c", 8);
    assert_eq!(all.iter().map(|s| (s.segment_index, s.source_message_count)).collect::<Vec<_>>(), vec![(2, 1), (1, 0), (0, 0)]);
    assert_eq!(db.list_summary_segments("c", 0).len(), 1);
    assert_eq!(db.latest_summary_end_created_at("c"), Some("tb2".to_string()));
    assert_eq!(db.latest_summary_end_created_at("d"), None);
    assert_eq!(
        db.append_summary_segment_at("c", "s", "", "", "", "", 0, "id0", "t").err(),
        Some(DbError::SummaryExists)
    );
    assert_eq!(
        db.append_summary_segment_at("gone", "s", "", "", "", "", 0, "new", "t").err(),
        Some(DbError::NoConversation)
    );
    db.summaries[2].segment_index = i64::MAX;
    assert_eq!(
        db.append_summary_segment_at("c", "s", "", "", "", "", 0, "new", "t").err(),
        Some(DbError::SegmentExists)
    );
    assert!(db.append_summary_segment("d", "s", "", "", "", "", 4).is_ok());
    assert_eq!(db.list_summary_segments("d", 1)[0].segment_index, 0);
}

#[test]
fn attachments_are_listed_and_deleted() {
    let mut db = talk(0);
    for n in 0..3 {
        db.add_conversation_file_at(" c ", " n ", " p ", -1, "text", "gist", &format!("f{n}"), &format!("t{n}"), "touched")
            .unwrap();
    }
    assert_eq!(db.files[0].file_size, 0);
    assert_eq!((db.files[0].file_name.as_str(), db.files[0].file_path.as_str()), ("n", "p"));
    let listed = db.list_conversation_files("c", 9);
    assert_eq!(listed.iter().map(|f| f.id.clone()).collect::<Vec<_>>(), vec!["f2", "f1", "f0"]);
    assert!(listed.iter().all(|f| f.content_text.is_empty()));
    assert_eq!(db.list_conversation_files_for_context("c", 1)[0].content_text, "text");
    assert_eq!(db.list_conversation_files("c", 0).len(), 1);
    assert_eq!(db.list_conversation_files("d", 9).len(), 0);
    let gone = db.soft_delete_conversation_file_at("f1", "now", "t9").unwrap();
    assert_eq!(gone.deleted_at, Some("now".to_string()));
    assert_eq!(db.list_conversation_files("c", 9).len(), 2);
    assert!(db.soft_delete_conversation_file("f1").is_none());
    assert_eq!(
        db.add_conversation_file_at("c", "n", "p", 1, "", "", "f0", "t", "t").err(),
        Some(DbError::FileExists)
    );
    assert_eq!(
        db.add_conversation_file("gone", "n", "p", 1, "", "").err(),
        Some(DbError::NoConversation)
    );
    let fresh = db.add_conversation_file("d", "n", "p", 1, "", "").unwrap();
    assert_eq!(fresh.id.len(), 36);
}

#[test]
fn what_is_said_of_refusals() {
    assert_eq!(DbError::ConversationExists.message(), "UNIQUE constraint failed: conversations.id");
    assert_eq!(DbError::MemoryExists.message(), "UNIQUE constraint failed: memories.id");
    assert_eq!(DbError::SummaryExists.message(), "UNIQUE constraint failed: summaries.id");
    assert_eq!(
        DbError::SegmentExists.message(),
        "UNIQUE constraint failed: summaries.conversation_id, summaries.segment_index"
    );
    assert_eq!(DbError::FileExists.message(), "UNIQUE constraint failed: conversation_files.id");
    assert_eq!(DbError::MemoryNotFound.message(), "memory not found");
    assert_eq!(
        DbError::ConversationRequired.message(),
        "conversation_id required when converting to conversation scope"
    );
}
