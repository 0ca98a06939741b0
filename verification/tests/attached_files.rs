use aipartner::db::Database;
use aipartner::files::{
    is_txt_file_name, lies_in, looks_like_raw_txt_request, sanitize_txt_file_name, stored_path,
    summarize_txt_content,
};
use aipartner::models::UploadTxtFileInput;
use aipartner::uploads::{prepare_upload, store_upload};

fn input(conversation: &str, name: &str, size: i64, content: &str) -> UploadTxtFileInput {
    UploadTxtFileInput {
        conversation_id: conversation.to_string(),
        file_name: name.to_string(),
        content_text: content.to_string(),
        file_size: size,
    }
}

#[test]
fn text_files_by_name() {
    assert!(is_txt_file_name("a.txt"));
    assert!(is_txt_file_name("dir/A.TXT"));
    assert!(!is_txt_file_name("a.txt.pdf"));
    assert!(!is_txt_file_name(".txt"));
    assert!(!is_txt_file_name("txt"));
    assert!(!is_txt_file_name("a.txt/.."));
}

#[test]
fn names_are_made_safe() {
    assert_eq!(sanitize_txt_file_name("my notes.txt"), "my_notes.txt");
    assert_eq!(sanitize_txt_file_name("../../etc/passwd"), "passwd.txt");
    assert_eq!(sanitize_txt_file_name("a:b*c?.TXT"), "a_b_c_.TXT");
    assert_eq!(sanitize_txt_file_name("你好.txt"), "你好.txt");
    assert_eq!(sanitize_txt_file_name(".."), "upload.txt");
    assert_eq!(sanitize_txt_file_name("..txt"), "txt");
    assert_eq!(sanitize_txt_file_name(""), "upload.txt");
    let long = sanitize_txt_file_name(&format!("{}.txt", "x".repeat(200)));
    assert_eq!(long, format!("{}.txt", "x".repeat(92)));
}

#[test]
fn safe_names_are_no_paths() {
    for name in ["a/b\\c.txt", "....txt", "c:\\x.txt", "\u{202e}x.txt", " . ", "/", "-rf.txt"] {
        let safe = sanitize_txt_file_name(name);
        assert!(!safe.contains('/') && !safe.contains('\\') && !safe.contains(':'), "{safe}");
        assert!(!safe.starts_with('.') && !safe.is_empty(), "{safe}");
    }
}

#[test]
fn summaries_of_texts() {
    assert_eq!(summarize_txt_content("one\n\n two \none\nthree"), "one | two | three");
    assert_eq!(summarize_txt_content(" \n\t"), "");
    let many = (0..9).map(|n| format!("line {n}")).collect::<Vec<_>>().join("\n");
    assert_eq!(summarize_txt_content(&many), "line 0 | line 1 | line 2 | line 3 | line 4 | line 5");
    let long = "y".repeat(500);
    assert_eq!(summarize_txt_content(&long), "y".repeat(120));
}

#[test]
fn raw_texts_are_told_on_demand() {
    assert!(looks_like_raw_txt_request("Quote the FILE please"));
    assert!(looks_like_raw_txt_request("按 txt 原文回答"));
    assert!(!looks_like_raw_txt_request("quote Shakespeare"));
    assert!(!looks_like_raw_txt_request("read the file"));
}

#[test]
fn uploads_are_checked_in_order() {
    let fault = |i: UploadTxtFileInput| prepare_upload(&i).err().unwrap();
    assert_eq!(fault(input(" ", "a.pdf", 0, "")), "conversation_id cannot be empty");
    assert_eq!(fault(input("c", "a.pdf", 0, "")), "only .txt files are supported");
    assert_eq!(fault(input("c", "a.txt", 0, "x")), "empty file is not allowed");
    assert_eq!(fault(input("c", "a.txt", 1_048_577, "x")), "txt file exceeds 1MB limit");
    assert_eq!(fault(input("c", "a.txt", 5, " \u{0} ")), "empty file is not allowed");
    let big = "é".repeat(600_000);
    assert_eq!(fault(input("c", "a.txt", 5, &big)), "txt content exceeds 1MB limit after decoding");
    let full = "e".repeat(1_048_576);
    assert!(prepare_upload(&input("c", "a.txt", 1_048_576, &full)).is_ok());
}

#[test]
fn prepared_uploads_are_stored() {
    let mut db = Database::new();
    db.create_conversation_at(Some("x"), "c", "t0").unwrap();
    let u = prepare_upload(&input(" c ", " a b.txt ", 12, "first\u{0}\nsecond")).unwrap();
    assert_eq!(u.conversation_id, "c");
    assert_eq!(u.file_name, "a b.txt");
    assert_eq!(u.content_text, "first\nsecond");
    assert_eq!(u.summary, "first | second");
    assert!(u.disk_name.ends_with("_a_b.txt"));
    assert_eq!(u.disk_name.len(), 32 + 1 + 7);
    assert_eq!(u.rel_path, format!("data/files/{}", u.disk_name));
    let again = prepare_upload(&input("c", "a b.txt", 12, "x")).unwrap();
    assert_ne!(u.disk_name, again.disk_name);

    let f = store_upload(&mut db, &u).unwrap();
    assert_eq!(f.content_text, "");
    assert_eq!(f.file_path, u.rel_path);
    assert_eq!(db.files.len(), 1);
    assert_eq!(db.files[0].content_text, "first\nsecond");
    assert_eq!(db.memories.len(), 0);

    let lost = prepare_upload(&input("gone", "a.txt", 12, "x")).unwrap();
    assert_eq!(store_upload(&mut db, &lost).err().unwrap(), "FOREIGN KEY constraint failed");
    assert_eq!(db.files.len(), 1);
}

#[test]
fn slashes_at_the_end_of_names() {
    assert!(is_txt_file_name("dir/a.txt/"));
    assert!(is_txt_file_name("dir//a.txt//"));
    assert!(is_txt_file_name("./a.txt/."));
    assert!(!is_txt_file_name("/"));
    assert!(!is_txt_file_name("a.txt/../"));
    assert_eq!(sanitize_txt_file_name("dir/my notes.txt/"), "my_notes.txt");
    assert_eq!(sanitize_txt_file_name("dir/notes/."), "notes.txt");
    assert_eq!(sanitize_txt_file_name("///"), "upload.txt");
    assert_eq!(sanitize_txt_file_name("./"), "upload.txt");
    assert_eq!(sanitize_txt_file_name("a/../"), "upload.txt");
}

#[test]
fn stored_paths_stay_in_their_directory() {
    assert_eq!(stored_path(" data/files/a.txt\n"), Some("data/files/a.txt".to_string()));
    assert_eq!(stored_path(" \t "), None);
    let parts = |list: &[&str]| -> Vec<String> { list.iter().map(|s| s.to_string()).collect() };
    assert!(lies_in(&parts(&["/", "app", "files", "a.txt"]), &parts(&["/", "app", "files"])));
    assert!(lies_in(&parts(&["/", "app"]), &parts(&["/", "app"])));
    assert!(lies_in(&parts(&["/"]), &parts(&[])));
    assert!(!lies_in(&parts(&["/", "app"]), &parts(&["/", "app", "files"])));
    assert!(!lies_in(&parts(&["/", "app", "files2", "a.txt"]), &parts(&["/", "app", "files"])));
}
