//! Attaching text files.
use vstd::prelude::*;
use vstd::utf8::encode_utf8;
use crate::db::attachments::{new_file, without_text};
use crate::db::{error_text, Database, DbError, Tables};
use crate::files::{
    is_portable, is_safe_name, is_txt_file_name, is_txt_name, path_name, sanitize_txt_file_name,
    stored_name, summarize_txt_content, txt_summary,
};
use crate::models::{ConversationFile, UploadTxtFileInput};
use crate::settings::MAX_TXT_FILE_BYTES;
use crate::stamps::{fresh_simple_id, is_simple_uuid, is_time_text, is_uuid};
use crate::text::{blank, is_blank, replace_char, replaced, trim, trimmed};

verus! {

/// Why a file is not attached, if it is not: `is_txt` says whether its name is
/// that of a text file.
pub open spec fn upload_fault(
    conversation_id: Seq<char>,
    is_txt: bool,
    file_size: i64,
    content: Seq<char>,
) -> Option<Seq<char>> {
    let kept = replaced(content, '\0', ""@);
    if is_blank(conversation_id) {
        Some("conversation_id cannot be empty"@)
    } else if !is_txt {
        Some("only .txt files are supported"@)
    } else if file_size <= 0 {
        Some("empty file is not allowed"@)
    } else if file_size > MAX_TXT_FILE_BYTES {
        Some("txt file exceeds 1MB limit"@)
    } else if is_blank(kept) {
        Some("empty file is not allowed"@)
    } else if encode_utf8(kept).len() > MAX_TXT_FILE_BYTES {
        Some("txt content exceeds 1MB limit after decoding"@)
    } else {
        None
    }
}

/// A file that may be attached.
#[derive(Debug)]
pub struct Upload {
    pub conversation_id: String,
    pub file_name: String,
    pub file_size: i64,
    pub content_text: String,
    pub summary: String,
    /// The name of the file that holds its text.
    pub disk_name: String,
    /// The path of that file below the directory of the program.
    pub rel_path: String,
}

/// Why a file is not attached, or its text without null characters.
pub fn check_upload(conversation_id: &str, is_txt: bool, file_size: i64, content: &str) -> (r: Result<
    String,
    String,
>)
    ensures
        match upload_fault(conversation_id@, is_txt, file_size, content@) {
            Some(e) => match r {
                Err(m) => m@ == e,
                Ok(_) => false,
            },
            None => match r {
                Ok(kept) => kept@ == replaced(content@, '\0', ""@),
                Err(_) => false,
            },
        },
{
    if blank(conversation_id) {
        return Err("conversation_id cannot be empty".to_owned());
    }
    if !is_txt {
        return Err("only .txt files are supported".to_owned());
    }
    if file_size <= 0 {
        return Err("empty file is not allowed".to_owned());
    }
    if file_size > MAX_TXT_FILE_BYTES {
        return Err("txt file exceeds 1MB limit".to_owned());
    }
    let kept = replace_char(content, '\0', "");
    if blank(&kept) {
        return Err("empty file is not allowed".to_owned());
    }
    let bytes = kept.as_str().as_bytes();
    if bytes.len() as u64 > MAX_TXT_FILE_BYTES as u64 {
        return Err("txt content exceeds 1MB limit after decoding".to_owned());
    }
    Ok(kept)
}

/// The name of a stored file: an identifier, an underscore, and the safe name
/// that is made of the last component of the name of the file.
pub open spec fn is_disk_name(s: Seq<char>, file_name: Seq<char>) -> bool {
    exists|id: Seq<char>, component: Option<Seq<char>>|
        {
            &&& is_simple_uuid(id)
            &&& is_portable(file_name) ==> component == path_name(file_name)
            &&& is_safe_name(stored_name(component))
            &&& s == #[trigger] stored_as(id, stored_name(component))
        }
}

/// An identifier, an underscore and a name.
pub open spec fn stored_as(id: Seq<char>, name: Seq<char>) -> Seq<char> {
    id + "_"@ + name
}

/// The upload holds what was sent.
pub open spec fn is_upload_of(u: Upload, input: UploadTxtFileInput) -> bool {
    let kept = replaced(input.content_text@, '\0', ""@);
    &&& u.conversation_id@ == trimmed(input.conversation_id@)
    &&& u.file_name@ == trimmed(input.file_name@)
    &&& u.file_size == input.file_size
    &&& u.content_text@ == kept
    &&& u.summary@ == txt_summary(kept)
    &&& is_disk_name(u.disk_name@, trimmed(input.file_name@))
    &&& u.rel_path@ == "data/files/"@ + u.disk_name@
}

/// Prepares a file that was sent: its text is to be written under the disk name
/// before it is stored.
pub fn prepare_upload(input: &UploadTxtFileInput) -> (r: Result<Upload, String>)
    ensures
        exists|is_txt: bool|
            (match #[trigger] upload_fault(
                input.conversation_id@,
                is_txt,
                input.file_size,
                input.content_text@,
            ) {
                Some(e) => match r {
                    Err(m) => m@ == e,
                    Ok(_) => false,
                },
                None => match r {
                    Ok(u) => is_upload_of(u, *input),
                    Err(_) => false,
                },
            }) && (is_portable(trimmed(input.file_name@)) ==> is_txt == is_txt_name(
                path_name(trimmed(input.file_name@)),
            )),
{
    let file_name = trim(&input.file_name);
    let is_txt = is_txt_file_name(&file_name);
    assert(is_portable(trimmed(input.file_name@)) ==> is_txt == is_txt_name(
        path_name(trimmed(input.file_name@)),
    ));
    let kept = match check_upload(
        &input.conversation_id,
        is_txt,
        input.file_size,
        &input.content_text,
    ) {
        Ok(k) => k,
        Err(e) => {
            return Err(e);
        },
    };
    let safe = sanitize_txt_file_name(&file_name);
    let id = fresh_simple_id();
    let ghost component = choose|component: Option<Seq<char>>|
        {
            &&& is_portable(file_name@) ==> component == path_name(file_name@)
            &&& safe@ == #[trigger] stored_name(component)
        };
    let ghost drawn = id@;
    let mut disk_name = id;
    disk_name.append("_");
    disk_name.append(&safe);
    assert(disk_name@ == stored_as(drawn, stored_name(component)));
    let mut rel_path = "data/files/".to_owned();
    rel_path.append(&disk_name);
    let summary = summarize_txt_content(&kept);
    Ok(
        Upload {
            conversation_id: trim(&input.conversation_id),
            file_name,
            file_size: input.file_size,
            content_text: kept,
            summary,
            disk_name,
            rel_path,
        },
    )
}

/// Stores a prepared file; what comes back is without its text.
pub fn store_upload(db: &mut Database, u: &Upload) -> (r: Result<ConversationFile, String>)
    ensures
        exists|id: Seq<char>, now: Seq<char>, touched_at: Seq<char>|
            is_uuid(id) && is_time_text(now) && is_time_text(touched_at) && upload_stored(
                r,
                new_file(
                    id,
                    u.conversation_id@,
                    u.file_name@,
                    u.rel_path@,
                    u.file_size,
                    u.content_text@,
                    u.summary@,
                    now,
                ),
                #[trigger] old(db)@.with_file(
                    new_file(
                        id,
                        u.conversation_id@,
                        u.file_name@,
                        u.rel_path@,
                        u.file_size,
                        u.content_text@,
                        u.summary@,
                        now,
                    ),
                    u.conversation_id@,
                    touched_at,
                ),
                old(db)@,
                final(db)@,
            ),
{
    match db.add_conversation_file(
        &u.conversation_id,
        &u.file_name,
        &u.rel_path,
        u.file_size,
        &u.content_text,
        &u.summary,
    ) {
        Ok(f) => {
            let mut shown = f;
            shown.content_text = "".to_owned();
            Ok(shown)
        },
        Err(e) => Err(e.message()),
    }
}

/// A file was stored, or refused, as `want` says.
pub open spec fn upload_stored(
    r: Result<ConversationFile, String>,
    f: ConversationFile<Seq<char>>,
    want: Result<Tables, DbError>,
    before: Tables,
    after: Tables,
) -> bool {
    match want {
        Ok(t) => after == t && match r {
            Ok(x) => x@ == without_text(f),
            Err(_) => false,
        },
        Err(e) => after == before && match r {
            Err(m) => m@ == error_text(e),
            Ok(_) => false,
        },
    }
}

} // verus!
