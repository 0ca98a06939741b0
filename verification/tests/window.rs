use aipartner::commands::{
    check_message, create_conversation, delete_conversation, delete_conversation_file,
    delete_message, list_conversation_files, list_conversations, list_memories, list_messages,
    move_conversation, prepare_edit, prepare_regenerate, rename_conversation,
    set_conversation_chat_settings, set_conversation_model, set_conversation_pinned,
    update_memory_scope,
};
use aipartner::db::ordering::leaves_room;
use aipartner::db::Database;
use aipartner::models::{
    ConversationIdInput, CreateConversationInput, DeleteConversationFileInput, DeleteMessageInput,
    EditMessageInput, ListConversationFilesInput, ListInput, ListMemoriesInput, ListMessagesInput,
    MoveConversationInput, RegenerateInput, RenameConversationInput, SendMessageInput,
    SetConversationChatSettingsInput, SetConversationModelInput, SetConversationPinnedInput,
    TokenUsage, UpdateMemoryScopeInput,
};

fn s(t: &str) -> String {
    t.to_string()
}

fn talk() -> Database {
    let mut db = Database::new();
    db.create_conversation_at(Some("x"), "c", "t").unwrap();
    let none = TokenUsage { prompt: 0, completion: 0, total: 0 };
    for (n, role) in ["user", "assistant", "user", "assistant"].iter().enumerate() {
        db.add_message_at("c", role, &format!("text {n}"), "", &none, &format!("m{n}"), &format!("t{n}"), "t").unwrap();
    }
    db
}

#[test]
fn conversations_are_listed_within_bounds() {
    let mut db = Database::new();
    for n in 0..25 {
        db.create_conversation_at(Some(&format!("chat {n}")), &format!("c{n}"), "t").unwrap();
    }
    assert_eq!(list_conversations(&db, &None).len(), 25);
    assert_eq!(list_conversations(&db, &Some(ListInput { query: None, limit: Some(3) })).len(), 20);
    assert_eq!(list_conversations(&db, &Some(ListInput { query: Some(s("CHAT 2")), limit: None })).len(), 6);
}

#[test]
fn created_conversations_are_used_last() {
    let mut db = Database::new();
    assert!(leaves_room(&db.conversations));
    let c = create_conversation(&mut db, &Some(CreateConversationInput { title: Some(s(" A ")) })).unwrap();
    assert_eq!(c.title, "A");
    assert_eq!(db.get_setting("last_conversation_id", ""), c.id);
    assert_eq!(create_conversation(&mut db, &None).unwrap().title, "New Chat");
    rename_conversation(&mut db, &RenameConversationInput { conversation_id: c.id.clone(), title: s(" B ") });
    set_conversation_pinned(&mut db, &SetConversationPinnedInput { conversation_id: c.id.clone(), pinned: true });
    set_conversation_model(&mut db, &SetConversationModelInput { conversation_id: c.id.clone(), model: s(" m ") });
    move_conversation(&mut db, &MoveConversationInput { conversation_id: c.id.clone(), direction: s("down") });
    let first = &list_conversations(&db, &None)[0];
    assert_eq!((first.title.as_str(), first.is_pinned, first.model_override.as_str()), ("B", true, "m"));
    db.conversations[0].sort_index = i64::MIN;
    assert!(!leaves_room(&db.conversations));
}

#[test]
fn deleted_conversations_name_their_files() {
    let mut db = talk();
    db.add_conversation_file_at("c", "n", "data/files/1", 1, "x", "y", "f1", "t1", "t").unwrap();
    db.add_conversation_file_at("c", "n", "data/files/2", 1, "x", "y", "f2", "t2", "t").unwrap();
    assert_eq!(delete_conversation(&mut db, &ConversationIdInput { conversation_id: s("  ") }).len(), 0);
    assert_eq!(db.conversations.len(), 1);
    let paths = delete_conversation(&mut db, &ConversationIdInput { conversation_id: s(" c ") });
    assert_eq!(paths, vec!["data/files/2", "data/files/1"]);
    assert_eq!(db.conversations.len(), 0);
}

fn chat_input() -> SetConversationChatSettingsInput {
    SetConversationChatSettingsInput {
        conversation_id: s("c"),
        provider: s(" OpenAI "),
        model: s(" m "),
        base_url: s(" u "),
        temperature_override: Some(5),
        max_tokens_override: Some(1),
        max_context_tokens_override: Some(1_000_000),
        max_recent_messages_override: Some(0),
        max_memory_items_override: Some(99),
        system_prompt: Some(s(" rules ")),
        thinking_override: Some(s(" Disabled ")),
        reasoning_effort_override: None,
    }
}

#[test]
fn settings_are_kept_within_bounds() {
    let mut db = talk();
    set_conversation_chat_settings(&mut db, &chat_input()).unwrap();
    let o = db.get_conversation_chat_overrides("c");
    assert_eq!((o.provider.as_str(), o.model.as_str(), o.base_url.as_str()), ("openai", "m", "u"));
    assert_eq!(
        (o.max_tokens, o.max_context_tokens, o.max_recent_messages, o.max_memory_items),
        (Some(256), Some(128_000), Some(4), Some(16))
    );
    assert_eq!((o.system_prompt.as_str(), o.thinking.as_str(), o.reasoning_effort.as_str()), ("rules", "disabled", ""));
    assert_eq!(o.temperature, Some(5));
    let mut blank = chat_input();
    blank.provider = s(" ");
    set_conversation_chat_settings(&mut db, &blank).unwrap();
    assert_eq!(db.get_conversation_chat_overrides("c").provider, "");
}

#[test]
fn unknown_words_are_refused() {
    let mut db = talk();
    let mut i = chat_input();
    i.thinking_override = Some(s("maybe"));
    i.reasoning_effort_override = Some(s("low"));
    assert_eq!(
        set_conversation_chat_settings(&mut db, &i),
        Err(s("Invalid thinking_override, use enabled/disabled or empty."))
    );
    i.thinking_override = Some(s(" "));
    assert_eq!(
        set_conversation_chat_settings(&mut db, &i),
        Err(s("Invalid reasoning_effort_override, use high/max or empty."))
    );
    assert_eq!(db.get_conversation_chat_overrides("c").model, "");
}

#[test]
fn messages_are_paged_within_bounds() {
    let db = talk();
    let page = |limit, offset| list_messages(&db, &ListMessagesInput { conversation_id: s("c"), limit, offset }).len();
    assert_eq!(page(None, None), 4);
    assert_eq!(page(Some(1), Some(-2)), 4);
    assert_eq!(page(None, Some(3)), 1);
}

#[test]
fn empty_messages_are_not_sent() {
    let check = |c: &str, t: &str| check_message(&SendMessageInput { conversation_id: s(c), content: s(t) });
    assert_eq!(check(" ", "x").err(), Some(s("conversation_id cannot be empty")));
    assert_eq!(check("c", " ").err(), Some(s("content cannot be empty")));
    let q = check(" c ", " hi ").unwrap();
    assert_eq!((q.conversation_id.as_str(), q.content.as_str()), ("c", "hi"));
}

#[test]
fn messages_are_edited() {
    let mut db = talk();
    let edit = |db: &mut Database, id: &str| {
        prepare_edit(db, &EditMessageInput { message_id: s(id), new_content: s(" new ") })
    };
    assert_eq!(edit(&mut db, "gone").err(), Some(s("message not found")));
    assert_eq!(edit(&mut db, "m1").err(), Some(s("only user message can be edited")));
    assert_eq!(db.messages.len(), 4);
    let q = edit(&mut db, "m2").unwrap();
    assert_eq!((q.conversation_id.as_str(), q.content.as_str()), ("c", "new"));
    assert_eq!(db.messages.len(), 3);
    assert_eq!(db.get_message("m2").unwrap().content, "new");
}

#[test]
fn answers_are_written_anew() {
    let mut db = talk();
    let again = |db: &mut Database, id: &str| {
        prepare_regenerate(db, &RegenerateInput { user_message_id: s(id) })
    };
    assert_eq!(again(&mut db, "gone").err(), Some(s("user message not found")));
    assert_eq!(again(&mut db, "m3").err(), Some(s("target is not user message")));
    let q = again(&mut db, "m0").unwrap();
    assert_eq!((q.conversation_id.as_str(), q.content.as_str()), ("c", "text 0"));
    assert_eq!(db.messages.len(), 1);
}

#[test]
fn messages_are_deleted_softly() {
    let mut db = talk();
    let input = |id: &str, soft| DeleteMessageInput { message_id: s(id), soft, reason: None };
    assert!(!delete_message(&mut db, &input("gone", None)));
    assert!(delete_message(&mut db, &input("m1", None)));
    assert_eq!(db.messages[1].deleted_reason, "user_request");
    assert_eq!(db.get_setting("last_conversation_id", ""), "c");
    assert!(delete_message(&mut db, &input("m1", Some(false))));
    assert_eq!(db.messages.len(), 3);
}

#[test]
fn attachments_of_a_conversation() {
    let mut db = talk();
    db.add_conversation_file_at("c", "n", "data/files/1", 1, "x", "y", "f1", "t1", "t").unwrap();
    let list = |db: &Database, c: &str| {
        list_conversation_files(db, &ListConversationFilesInput { conversation_id: s(c), limit: None }).len()
    };
    assert_eq!(list(&db, " c "), 1);
    assert_eq!(list(&db, " "), 0);
    let gone = delete_conversation_file(&mut db, &DeleteConversationFileInput { file_id: s(" f1 ") });
    assert_eq!(gone, Some(s("data/files/1")));
    assert_eq!(list(&db, "c"), 0);
    assert_eq!(delete_conversation_file(&mut db, &DeleteConversationFileInput { file_id: s("f1") }), None);
}

#[test]
fn memories_of_a_conversation() {
    let mut db = talk();
    db.upsert_memory_at("I like green tea", 5, "conversation", Some("c"), None, None, "a", "t").unwrap();
    assert_eq!(list_memories(&db, &None).len(), 1);
    let input = ListMemoriesInput { conversation_id: Some(s("d")), limit: Some(1) };
    assert_eq!(list_memories(&db, &Some(input)).len(), 0);
    let scope = |id: &str, make_global| UpdateMemoryScopeInput { memory_id: s(id), conversation_id: None, make_global };
    assert_eq!(update_memory_scope(&mut db, &scope("x", true)), Err(s("memory not found")));
    assert_eq!(update_memory_scope(&mut db, &scope("a", true)), Ok(()));
    assert_eq!(
        update_memory_scope(&mut db, &scope("a", false)),
        Err(s("conversation_id required when converting to conversation scope"))
    );
    let input = ListMemoriesInput { conversation_id: Some(s("d")), limit: Some(1) };
    assert_eq!(list_memories(&db, &Some(input)).len(), 1);
}
