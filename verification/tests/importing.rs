use aipartner::db::Database;
use aipartner::importer::{import_conversations_json, plan_import, ImportStep};
use aipartner::json::parse;

const FILE: &str = r#"[
  {
    "title": "  Travel ",
    "updated_at": "2024-05-01",
    "mapping": {
      "n2": {"message": {"inserted_at": "2024-01-02", "fragments": [
        {"type": "think", "content": " one "},
        {"type": "THINK", "content": "two"},
        {"type": "response", "content": "Go to Rome"},
        {"type": "RESPONSE", "content": "Or Paris"},
        {"type": "search", "content": "ignored"},
        {"type": "REQUEST", "content": "  "}
      ]}},
      "n1": {"message": {"inserted_at": "2024-01-01", "fragments": [{"type": "Request", "content": " Where to? "}]}},
      "n0": {"message": {"fragments": [{"type": "REQUEST", "content": "undated"}, 7]}},
      "root": {"message": null},
      "x": 3
    }
  },
  "not an object",
  {"title": " ", "mapping": []}
]"#;

#[test]
fn files_are_planned() {
    let steps = plan_import(&parse(FILE).unwrap()).unwrap();
    let told: Vec<String> = steps
        .iter()
        .map(|s| match s {
            ImportStep::Begin(t) => format!("begin {t}"),
            ImportStep::Add(m) => format!("{} {}|{}|{}", m.created_at, m.role, m.content, m.reasoning),
        })
        .collect();
    assert_eq!(
        told,
        vec![
            "begin Travel",
            "2024-01-01 user|Where to?|",
            "2024-01-02 assistant|Go to Rome|one\ntwo",
            "2024-01-02 assistant|Or Paris|",
            "2024-05-01 user|undated|",
            "begin Imported Chat"
        ]
    );
    assert!(plan_import(&parse("{}").unwrap()).is_none());
}

#[test]
fn files_are_imported() {
    let mut db = Database::new();
    let n = import_conversations_json(&mut db, FILE).unwrap();
    assert_eq!((n.imported_conversations, n.imported_messages), (2, 4));
    assert_eq!(db.conversations.len(), 2);
    assert_eq!(db.conversations[0].title, "Travel");
    let id = db.conversations[0].id.clone();
    let contents: Vec<String> = db.all_messages(&id).into_iter().map(|m| m.content).collect();
    assert_eq!(contents, vec!["Where to?", "Go to Rome", "Or Paris", "undated"]);
    assert_eq!(db.messages[1].reasoning_content, "one\ntwo");
    assert_eq!(db.memories.len(), 0);
}

#[test]
fn undated_messages_get_the_first_date() {
    let mut db = Database::new();
    let raw = r#"[{"mapping": {"a": {"message": {"fragments": [{"type": "REQUEST", "content": "x"}]}}}}]"#;
    import_conversations_json(&mut db, raw).unwrap();
    assert_eq!(db.messages[0].created_at, "1970-01-01T00:00:00+00:00");
}

#[test]
fn faulty_files_are_refused() {
    let mut db = Database::new();
    let e = import_conversations_json(&mut db, "{}").err().unwrap();
    assert_eq!(e.message(), "invalid conversations.json: root must be array");
    let e = import_conversations_json(&mut db, "[").err().unwrap();
    assert!(e.message().starts_with("EOF while parsing"), "{}", e.message());
    assert_eq!(db.conversations.len(), 0);
}
