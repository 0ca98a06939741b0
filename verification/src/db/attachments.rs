//! The text files attached to conversations.
use vstd::prelude::*;
use crate::db::{Database, DbError, Tables};
use crate::models::ConversationFile;
use crate::db::order_laws::lemma_sorted_from;
use crate::db::soundness::lemma_filter_member;
use crate::sorting::{law_sorted, sorted, stable_sort, views};
use crate::stamps::{fresh_id, is_time_text, is_uuid, now_iso};
use crate::table::{
    change_rows, changed, find_row, first_row, first_where, lemma_first_where, limit_rows, limited,
    reversed, select,
};
use crate::text::{le_text, text_eq, text_le, trim, trimmed};

verus! {

/// The attachment has this identifier.
pub open spec fn is_file(id: Seq<char>) -> spec_fn(ConversationFile<Seq<char>>) -> bool {
    |f: ConversationFile<Seq<char>>| f.id == id
}

/// The attachment has this identifier and was not deleted.
pub open spec fn is_kept_file(id: Seq<char>) -> spec_fn(ConversationFile<Seq<char>>) -> bool {
    |f: ConversationFile<Seq<char>>| f.id == id && f.deleted_at is None
}

/// The attachment belongs to this conversation and was not deleted.
pub open spec fn is_kept_file_in(conversation_id: Seq<char>) -> spec_fn(
    ConversationFile<Seq<char>>,
) -> bool {
    |f: ConversationFile<Seq<char>>| f.conversation_id == conversation_id && f.deleted_at is None
}

/// An attachment that was deleted at `now`.
pub open spec fn deleted_file(now: Seq<char>) -> spec_fn(
    ConversationFile<Seq<char>>,
) -> ConversationFile<Seq<char>> {
    |f: ConversationFile<Seq<char>>| ConversationFile { deleted_at: Some(now), ..f }
}

/// The order in which attachments were added.
pub open spec fn upload_order() -> spec_fn(
    ConversationFile<Seq<char>>,
    ConversationFile<Seq<char>>,
) -> bool {
    |a: ConversationFile<Seq<char>>, b: ConversationFile<Seq<char>>|
        text_le(a.created_at, b.created_at)
}

/// The newest attachments first.
pub open spec fn newest_first(rows: Seq<ConversationFile<Seq<char>>>) -> Seq<
    ConversationFile<Seq<char>>,
> {
    sorted(
        rows,
        upload_order(),
    ).reverse()
}

/// An attachment without its text.
pub open spec fn without_text(f: ConversationFile<Seq<char>>) -> ConversationFile<Seq<char>> {
    ConversationFile { content_text: ""@, ..f }
}

/// A new attachment.
pub open spec fn new_file(
    id: Seq<char>,
    conversation_id: Seq<char>,
    file_name: Seq<char>,
    file_path: Seq<char>,
    file_size: i64,
    content_text: Seq<char>,
    summary: Seq<char>,
    now: Seq<char>,
) -> ConversationFile<Seq<char>> {
    ConversationFile {
        id,
        conversation_id: trimmed(conversation_id),
        file_name: trimmed(file_name),
        file_path: trimmed(file_path),
        file_size: if file_size < 0 {
            0
        } else {
            file_size
        },
        content_text,
        summary,
        created_at: now,
        deleted_at: None,
    }
}

/// An attachment was added, or refused, as `want` says.
pub open spec fn file_added(
    r: Result<ConversationFile, DbError>,
    f: ConversationFile<Seq<char>>,
    want: Result<Tables, DbError>,
    before: Tables,
    after: Tables,
) -> bool {
    match want {
        Ok(t) => after == t && match r {
            Ok(x) => x@ == f,
            Err(_) => false,
        },
        Err(e) => r == Err::<ConversationFile, DbError>(e) && after == before,
    }
}

impl Tables {
    /// The attachments of a conversation that were not deleted, the newest
    /// first.
    pub open spec fn files_of(self, conversation_id: Seq<char>, limit: int) -> Seq<
        ConversationFile<Seq<char>>,
    > {
        limited(
            newest_first(
                self.files.filter(is_kept_file_in(trimmed(conversation_id))),
            ),
            if limit < 1 {
                1
            } else {
                limit
            },
        )
    }

    /// The attachments of a conversation without their texts.
    pub open spec fn file_list(self, conversation_id: Seq<char>, limit: int) -> Seq<
        ConversationFile<Seq<char>>,
    > {
        let rows = self.files_of(conversation_id, limit);
        Seq::new(rows.len(), |i: int| without_text(rows[i]))
    }

    /// What is stored after an attachment was added; the conversation named
    /// `touched_id` is marked as changed.
    pub open spec fn with_file(
        self,
        f: ConversationFile<Seq<char>>,
        touched_id: Seq<char>,
        touched_at: Seq<char>,
    ) -> Result<Tables, DbError> {
        if first_where(self.files, is_file(f.id)) is Some {
            Err(DbError::FileExists)
        } else if !self.has_conversation(f.conversation_id) {
            Err(DbError::NoConversation)
        } else {
            Ok(Tables { files: self.files.push(f), ..self }.touched(touched_id, touched_at))
        }
    }

    /// The attachment with this identifier, unless it was deleted.
    pub open spec fn file(self, id: Seq<char>) -> Option<ConversationFile<Seq<char>>> {
        first_row(
            self.files,
            is_kept_file(id),
        )
    }

    /// What is stored after an attachment was deleted, and the attachment.
    pub open spec fn file_deleted(self, id: Seq<char>, now: Seq<char>, touched_at: Seq<char>) -> (
        Tables,
        Option<ConversationFile<Seq<char>>>,
    ) {
        match self.file(id) {
            None => (self, None),
            Some(f) => (
                Tables {
                    files: changed(
                        self.files,
                        is_kept_file(id),
                        deleted_file(now),
                    ),
                    ..self
                }.touched(f.conversation_id, touched_at),
                Some(ConversationFile { deleted_at: Some(now), ..f }),
            ),
        }
    }
}

/// The view of an optional attachment.
pub open spec fn opt_file(f: Option<ConversationFile>) -> Option<ConversationFile<Seq<char>>> {
    match f {
        Some(x) => Some(x@),
        None => None,
    }
}

impl Database {
    /// Attaches a file to a conversation at `now` under the identifier `id`.
    pub fn add_conversation_file_at(
        &mut self,
        conversation_id: &str,
        file_name: &str,
        file_path: &str,
        file_size: i64,
        content_text: &str,
        summary: &str,
        id: &str,
        now: &str,
        touched_at: &str,
    ) -> (r: Result<ConversationFile, DbError>)
        ensures
            ({
                let f = new_file(
                    id@,
                    conversation_id@,
                    file_name@,
                    file_path@,
                    file_size,
                    content_text@,
                    summary@,
                    now@,
                );
                file_added(
                    r,
                    f,
                    old(self)@.with_file(f, conversation_id@, touched_at@),
                    old(self)@,
                    final(self)@,
                )
            }),
    {
        let ghost before = self@;
        let f = ConversationFile {
            id: id.to_owned(),
            conversation_id: trim(conversation_id),
            file_name: trim(file_name),
            file_path: trim(file_path),
            file_size: if file_size < 0 {
                0
            } else {
                file_size
            },
            content_text: content_text.to_owned(),
            summary: summary.to_owned(),
            created_at: now.to_owned(),
            deleted_at: None,
        };
        let same_id = find_row(
            &self.files,
            |x: &ConversationFile| -> (r: bool)
                ensures
                    r == (x@.id == f@.id)
                { text_eq(&x.id, &f.id) },
            Ghost(is_file(f@.id)),
        );
        if same_id.is_some() {
            return Err(DbError::FileExists);
        }
        if self.find_conversation(&f.conversation_id).is_none() {
            return Err(DbError::NoConversation);
        }
        let ghost next = before.files.push(f@);
        self.files.push(f.clone());
        assert(views(self.files@) =~= next);
        assert(self@ == Tables { files: next, ..before });
        self.touch(conversation_id, touched_at);
        Ok(f)
    }

    /// Attaches a file to a conversation.
    pub fn add_conversation_file(
        &mut self,
        conversation_id: &str,
        file_name: &str,
        file_path: &str,
        file_size: i64,
        content_text: &str,
        summary: &str,
    ) -> (r: Result<ConversationFile, DbError>)
        ensures
            exists|id: Seq<char>, now: Seq<char>, touched_at: Seq<char>|
                is_uuid(id) && is_time_text(now) && is_time_text(touched_at) && file_added(
                    r,
                    new_file(
                        id,
                        conversation_id@,
                        file_name@,
                        file_path@,
                        file_size,
                        content_text@,
                        summary@,
                        now,
                    ),
                    #[trigger] old(self)@.with_file(
                        new_file(
                            id,
                            conversation_id@,
                            file_name@,
                            file_path@,
                            file_size,
                            content_text@,
                            summary@,
                            now,
                        ),
                        conversation_id@,
                        touched_at,
                    ),
                    old(self)@,
                    final(self)@,
                ),
    {
        let now = now_iso();
        let id = fresh_id();
        let touched_at = now_iso();
        self.add_conversation_file_at(
            conversation_id,
            file_name,
            file_path,
            file_size,
            content_text,
            summary,
            &id,
            &now,
            &touched_at,
        )
    }

    /// The attachments of a conversation, the newest first, with their texts.
    pub fn list_conversation_files_for_context(&self, conversation_id: &str, limit: i64) -> (r: Vec<
        ConversationFile,
    >)
        ensures
            views(r@) == self@.files_of(conversation_id@, limit as int),
    {
        let id = trim(conversation_id);
        let rows = select(
            &self.files,
            |f: &ConversationFile| -> (r: bool)
                ensures
                    r == (f@.conversation_id == trimmed(conversation_id@) && f@.deleted_at is None)
                { text_eq(&f.conversation_id, &id) && f.deleted_at.is_none() },
            Ghost(is_kept_file_in(trimmed(conversation_id@))),
        );
        let rows = stable_sort(
            rows,
            |a: &ConversationFile, b: &ConversationFile| -> (r: bool)
                ensures
                    r == text_le(a@.created_at, b@.created_at)
                { le_text(&a.created_at, &b.created_at) },
            Ghost(upload_order()),
        );
        let mut rows = reversed(rows);
        limit_rows(
            &mut rows,
            if limit < 1 {
                1
            } else {
                limit
            },
        );
        rows
    }

    /// The attachments of a conversation, the newest first, without their
    /// texts.
    pub fn list_conversation_files(&self, conversation_id: &str, limit: i64) -> (r: Vec<
        ConversationFile,
    >)
        ensures
            views(r@) == self@.file_list(conversation_id@, limit as int),
    {
        let mut rows = self.list_conversation_files_for_context(conversation_id, limit);
        change_rows(
            &mut rows,
            |f: &ConversationFile| -> (r: bool)
                ensures
                    r == true
                { true },
            |f: &ConversationFile| -> (r: ConversationFile)
                ensures
                    r@ == without_text(f@)
                {
                    let mut g = f.clone();
                    g.content_text = "".to_owned();
                    g
                },
            Ghost(|f: ConversationFile<Seq<char>>| true),
            Ghost(|f: ConversationFile<Seq<char>>| without_text(f)),
        );
        assert(views(rows@) =~= self@.file_list(conversation_id@, limit as int));
        rows
    }

    /// Marks an attachment as deleted at `now` and returns it.
    pub fn soft_delete_conversation_file_at(
        &mut self,
        file_id: &str,
        now: &str,
        touched_at: &str,
    ) -> (r: Option<ConversationFile>)
        ensures
            old(self)@.file_deleted(file_id@, now@, touched_at@) == (final(self)@, opt_file(r)),
    {
        let at = find_row(
            &self.files,
            |f: &ConversationFile| -> (r: bool)
                ensures
                    r == (f@.id == file_id@ && f@.deleted_at is None)
                { text_eq(&f.id, file_id) && f.deleted_at.is_none() },
            Ghost(is_kept_file(file_id@)),
        );
        let mut file = match at {
            Some(i) => self.files[i].clone(),
            None => {
                return None;
            },
        };
        change_rows(
            &mut self.files,
            |f: &ConversationFile| -> (r: bool)
                ensures
                    r == (f@.id == file_id@ && f@.deleted_at is None)
                { text_eq(&f.id, file_id) && f.deleted_at.is_none() },
            |f: &ConversationFile| -> (r: ConversationFile)
                ensures
                    r@ == (ConversationFile { deleted_at: Some(now@), ..f@ })
                {
                    let mut g = f.clone();
                    g.deleted_at = Some(now.to_owned());
                    g
                },
            Ghost(is_kept_file(file_id@)),
            Ghost(deleted_file(now@)),
        );
        self.touch(&file.conversation_id, touched_at);
        file.deleted_at = Some(now.to_owned());
        Some(file)
    }

    /// Marks an attachment as deleted and returns it.
    pub fn soft_delete_conversation_file(&mut self, file_id: &str) -> (r: Option<ConversationFile>)
        ensures
            exists|now: Seq<char>, touched_at: Seq<char>|
                is_time_text(now) && is_time_text(touched_at) && #[trigger] old(
                    self,
                )@.file_deleted(file_id@, now, touched_at) == (final(self)@, opt_file(r)),
    {
        let now = now_iso();
        let touched_at = now_iso();
        self.soft_delete_conversation_file_at(file_id, &now, &touched_at)
    }
}

// ---------------------------------------------------------------------------
// Laws
// ---------------------------------------------------------------------------

/// Only attachments of the conversation that were not deleted are listed.
pub proof fn law_files_belong(t: Tables, conversation_id: Seq<char>, limit: int, i: int)
    requires
        0 <= i < t.files_of(conversation_id, limit).len(),
    ensures
        ({
            let f = t.files_of(conversation_id, limit)[i];
            t.files.contains(f) && f.conversation_id == trimmed(conversation_id) && f.deleted_at
                is None
        }),
{
    let p = is_kept_file_in(trimmed(conversation_id));
    let kept = t.files.filter(p);
    let up = sorted(kept, upload_order());
    law_sorted(kept, upload_order());
    let f = t.files_of(conversation_id, limit)[i];
    assert(f == up[up.len() - 1 - i]);
    let a = lemma_sorted_from(kept, upload_order(), up.len() - 1 - i);
    let b = lemma_filter_member(t.files, p, a);
    assert(t.files[b] == f);
}

/// A deleted attachment is not listed any more.
pub proof fn law_deleted_file_is_gone(
    t: Tables,
    id: Seq<char>,
    now: Seq<char>,
    touched_at: Seq<char>,
    conversation_id: Seq<char>,
    limit: int,
    i: int,
)
    requires
        0 <= i < t.file_deleted(id, now, touched_at).0.files_of(conversation_id, limit).len(),
    ensures
        t.file_deleted(id, now, touched_at).0.files_of(conversation_id, limit)[i].id != id,
{
    let u = t.file_deleted(id, now, touched_at).0;
    law_files_belong(u, conversation_id, limit, i);
    let f = u.files_of(conversation_id, limit)[i];
    let j = choose|j: int| 0 <= j < u.files.len() && u.files[j] == f;
    match t.file(id) {
        Some(_) => {
            assert(u.files == changed(t.files, is_kept_file(id), deleted_file(now)));
        },
        None => {
            lemma_first_where(t.files, is_kept_file(id));
            assert(!is_kept_file(id)(t.files[j]));
        },
    }
}

/// An attachment that was added is among those of its conversation.
pub proof fn law_added_file_is_there(
    t: Tables,
    f: ConversationFile<Seq<char>>,
    touched_id: Seq<char>,
    touched_at: Seq<char>,
)
    requires
        f.deleted_at is None,
    ensures
        match t.with_file(f, touched_id, touched_at) {
            Ok(u) => u.file(f.id) == Some(f) && u.files.contains(f) && u.memories == t.memories,
            Err(e) => e == DbError::FileExists || e == DbError::NoConversation,
        },
{
    match t.with_file(f, touched_id, touched_at) {
        Ok(u) => {
            assert(u.files == t.files.push(f));
            assert(u.files.drop_last() =~= t.files);
            assert(u.files[t.files.len() as int] == f);
            lemma_first_where(t.files, is_file(f.id));
            lemma_first_where(t.files, is_kept_file(f.id));
            match first_where(t.files, is_kept_file(f.id)) {
                Some(i) => {
                    assert(!is_file(f.id)(t.files[i]));
                },
                None => {},
            }
        },
        Err(_) => {},
    }
}

} // verus!
