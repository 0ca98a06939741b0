use aipartner::backup::{
    auto_backup_name, backup_due, check_restore, escaped_sqlite_path, list_auto_backups, looks_auto,
    manual_backup_name, migration_backup_name, pre_restore_backup_name, prune_auto_backups,
    temporary_backup_name, BackupFile,
};
use aipartner::db::schema::{
    column_exists, current_version, ensure_column, migration_name, pending_migrations,
    plan_migration, LegacySummary,
};
use aipartner::db::{Database, DbError};
use aipartner::models::TokenUsage;

fn strings(list: &[&str]) -> Vec<String> {
    list.iter().map(|s| s.to_string()).collect()
}

fn backup(name: &str, modified: u128) -> BackupFile {
    BackupFile { name: name.to_string(), modified }
}

#[test]
fn backups_have_names() {
    let a = auto_backup_name();
    assert!(a.starts_with("auto_") && a.ends_with(".db") && looks_auto(&a));
    assert_eq!(a.len(), "auto_20240101_000000.db".len());
    assert!(manual_backup_name().starts_with("manual_"));
    assert!(pre_restore_backup_name().starts_with("pre_restore_"));
    assert!(migration_backup_name(3, 12).starts_with("pre_migration_v3_to_v12_"));
    assert!(!looks_auto("manual_1.db"));
    assert!(!looks_auto("auto_1.db-wal"));
    let t = temporary_backup_name();
    assert!(t.starts_with(".tmp_backup_") && t.ends_with(".db"));
    assert_ne!(t, temporary_backup_name());
}

#[test]
fn paths_are_quoted() {
    assert_eq!(escaped_sqlite_path("C:\\it's here"), "C:\\it''s here");
}

#[test]
fn old_backups_are_removed() {
    let mut files: Vec<BackupFile> = (0..20).map(|n| backup(&format!("auto_{n}.db"), n)).collect();
    files.push(backup("manual_1.db", 0));
    files.push(backup("auto_x.txt", 0));
    let copy = |v: &Vec<BackupFile>| v.iter().map(|f| backup(&f.name, f.modified)).collect::<Vec<_>>();
    let listed = list_auto_backups(copy(&files));
    assert_eq!(listed.len(), 20);
    assert_eq!(listed[0].name, "auto_19.db");
    let gone: Vec<String> = prune_auto_backups(copy(&files)).into_iter().map(|f| f.name).collect();
    assert_eq!(gone, strings(&["auto_5.db", "auto_4.db", "auto_3.db", "auto_2.db", "auto_1.db", "auto_0.db"]));
    assert_eq!(prune_auto_backups(vec![backup("auto_1.db", 1)]).len(), 0);
}

#[test]
fn backups_are_due_after_a_while() {
    assert!(backup_due(true, true, Some(0)));
    assert!(backup_due(false, false, None));
    assert!(!backup_due(false, true, Some(71_999)));
    assert!(backup_due(false, true, Some(72_000)));
    assert!(backup_due(false, true, None));
}

#[test]
fn backups_are_checked_before_restoring() {
    assert_eq!(check_restore(false, "ok"), Err("backup file not found".to_string()));
    assert_eq!(check_restore(true, "failed"), Err("backup integrity_check failed: failed".to_string()));
    assert_eq!(check_restore(true, "OK"), Ok(()));
}

#[test]
fn versions_are_pending() {
    assert_eq!(pending_migrations(9), vec![10, 11, 12]);
    assert_eq!(pending_migrations(12), Vec::<i64>::new());
    assert_eq!(pending_migrations(99), Vec::<i64>::new());
    assert_eq!(pending_migrations(0).len(), 12);
    assert_eq!(migration_name(7), "migration_v7");
}

#[test]
fn columns_are_added_once() {
    let columns = strings(&["id", "Scope"]);
    assert!(column_exists(&columns, "scope"));
    assert_eq!(ensure_column(&columns, "memories", "scope", "TEXT"), None);
    assert_eq!(
        ensure_column(&columns, "memories", "conversation_id", "TEXT"),
        Some("ALTER TABLE memories ADD COLUMN conversation_id TEXT".to_string())
    );
}

fn legacy(id: &str, conversation: &str, summary: &str) -> LegacySummary {
    LegacySummary {
        id: id.to_string(),
        conversation_id: conversation.to_string(),
        summary: summary.to_string(),
        covered_until_message_id: "m".to_string(),
        covered_until_created_at: "tm".to_string(),
        created_at: "t1".to_string(),
        updated_at: format!("t-{summary}"),
    }
}

#[test]
fn old_summaries_are_taken_over() {
    let mut db = Database::new();
    db.create_conversation_at(None, "c", "t").unwrap();
    db.create_conversation_at(None, "d", "t").unwrap();
    db.adopt_legacy_summary(&legacy("s", " ", "x"), "f").unwrap();
    db.adopt_legacy_summary(&legacy("s", "c", " "), "f").unwrap();
    assert_eq!(db.summaries.len(), 0);
    db.adopt_legacy_summary(&legacy(" ", "c", "first"), "fresh").unwrap();
    db.adopt_legacy_summary(&legacy("s2", "c", "second"), "f").unwrap();
    assert_eq!(db.summaries.len(), 1);
    let s = &db.summaries[0];
    assert_eq!((s.id.as_str(), s.summary.as_str(), s.segment_index), ("fresh", "second", 0));
    assert_eq!((s.created_at.as_str(), s.updated_at.as_str()), ("t1", "t-second"));
    assert_eq!(
        db.adopt_legacy_summary(&legacy("fresh", "d", "x"), "f").err(),
        Some(DbError::SummaryExists)
    );
    assert_eq!(
        db.adopt_legacy_summary(&legacy("s3", "gone", "x"), "f").err(),
        Some(DbError::NoConversation)
    );
}

#[test]
fn migrations_are_planned() {
    assert_eq!(current_version(&vec![]), 0);
    assert_eq!(current_version(&vec![1, 3, 2]), 3);
    assert_eq!(current_version(&vec![-5]), -5);
    let plan = plan_migration(&vec![1, 2, 3, 4, 5, 6, 7, 8, 9], true);
    assert_eq!(plan.versions, vec![10, 11, 12]);
    let name = plan.backup.unwrap();
    assert!(name.starts_with("pre_migration_v9_to_v12_") && name.ends_with(".db"));
    let plan = plan_migration(&vec![], false);
    assert_eq!(plan.versions.len(), 12);
    assert!(plan.backup.is_none());
    let again = plan_migration(&plan.versions, true);
    assert!(again.versions.is_empty() && again.backup.is_none());
}

#[test]
fn starting_loses_nothing() {
    let mut db = Database::new();
    db.create_conversation_at(Some("One"), "a", "t").unwrap();
    let none = TokenUsage { prompt: 0, completion: 0, total: 0 };
    db.add_message_at("a", "user", "hello", "", &none, "m", "t", "t").unwrap();
    db.set_setting_at("model", "mine", "t0");
    db.upsert_memory_at("I like green tea", 6, "global", None, None, None, "n", "t").unwrap();
    db.prepare_at("t1", "t2", "t3");
    assert_eq!((db.conversations.len(), db.messages.len(), db.memories.len()), (1, 1, 1));
    assert_eq!(db.conversations[0].title, "One");
    assert_eq!(db.messages[0].content, "hello");
    assert_eq!(db.memories[0].content, "I like green tea");
    assert_eq!(db.get_setting("model", ""), "mine");
    let settings = db.settings.len();
    db.prepare_at("t4", "t5", "t6");
    assert_eq!(db.settings.len(), settings);
    assert_eq!(db.user_profile.unwrap().updated_at, "t2");
}
