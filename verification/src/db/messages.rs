//! The messages of conversations.
use vstd::prelude::*;
use crate::db::{carried_out, is_message, is_other_message, summary_elsewhere, Database, DbError, Tables};
use crate::models::{Message, SummaryRow, TokenUsage};
use crate::db::order_laws::{lemma_sorted_from, lemma_sorted_has};
use crate::db::soundness::{lemma_filter_keeps, lemma_filter_member};
use crate::db::summaries::{is_summary_of, newest_segment_first};
use crate::sorting::{is_order, is_sorted, law_sorted, sorted, stable_sort, views};
use crate::stamps::{fresh_id, is_time_text, is_uuid, now_iso};
use crate::table::{
    change_rows, changed, find_row, first_row, first_where, keep_rows, lemma_first_where,
    limit_rows, limited, select,
};
use crate::text::{
    law_text_order_total, law_text_order_transitive, le_text, opt_str, opt_text, text_eq, text_le,
    trim, trimmed,
};

verus! {

/// The message was not deleted.
pub open spec fn is_kept(m: Message<Seq<char>>) -> bool {
    m.deleted_at is None
}

/// The message has this identifier and was not deleted.
pub open spec fn is_kept_message(id: Seq<char>) -> spec_fn(Message<Seq<char>>) -> bool {
    |m: Message<Seq<char>>| m.id == id && is_kept(m)
}

/// The message belongs to this conversation and was not deleted.
pub open spec fn is_kept_in(conversation_id: Seq<char>) -> spec_fn(Message<Seq<char>>) -> bool {
    |m: Message<Seq<char>>| m.conversation_id == conversation_id && is_kept(m)
}

/// The message belongs to this conversation, was not deleted, and was written
/// after this time; the empty time is none.
pub open spec fn is_kept_after(conversation_id: Seq<char>, time: Seq<char>) -> spec_fn(
    Message<Seq<char>>,
) -> bool {
    |m: Message<Seq<char>>|
        m.conversation_id == conversation_id && is_kept(m) && (time.len() == 0 || !text_le(
            m.created_at,
            time,
        ))
}

/// The message belongs to another conversation, or was not written after this
/// time.
pub open spec fn is_not_after(conversation_id: Seq<char>, time: Seq<char>) -> spec_fn(
    Message<Seq<char>>,
) -> bool {
    |m: Message<Seq<char>>|
        m.conversation_id != conversation_id || text_le(m.created_at, time)
}

/// The order in which messages were written.
pub open spec fn writing_order() -> spec_fn(Message<Seq<char>>, Message<Seq<char>>) -> bool {
    |a: Message<Seq<char>>, b: Message<Seq<char>>| written_before(a, b)
}

/// The order in which messages were written.
pub open spec fn written_before(a: Message<Seq<char>>, b: Message<Seq<char>>) -> bool {
    text_le(a.created_at, b.created_at)
}

/// The part of a list that ends `offset` elements before its end and holds at
/// most `limit` elements; a negative limit is none.
pub open spec fn page_from_end<A>(s: Seq<A>, limit: int, offset: int) -> Seq<A> {
    let skipped = if offset < 0 {
        0
    } else {
        offset
    };
    let end = if s.len() <= skipped {
        0
    } else {
        s.len() - skipped
    };
    if limit < 0 || end <= limit {
        s.take(end)
    } else {
        s.subrange(end - limit, end)
    }
}

/// The time after which messages are wanted; the empty text is no limit.
pub open spec fn marker_of(after: Option<Seq<char>>) -> Seq<char> {
    match after {
        Some(t) => trimmed(t),
        None => Seq::empty(),
    }
}

impl Tables {
    /// The messages of a conversation that were not deleted, the oldest first.
    pub open spec fn timeline(self, conversation_id: Seq<char>) -> Seq<Message<Seq<char>>> {
        sorted(
            self.messages.filter(is_kept_in(conversation_id)),
            writing_order(),
        )
    }

    /// The first messages of a conversation that were written after a time and
    /// not deleted.
    pub open spec fn messages_after(
        self,
        conversation_id: Seq<char>,
        marker: Seq<char>,
        limit: int,
    ) -> Seq<Message<Seq<char>>> {
        limited(
            sorted(
                self.messages.filter(is_kept_after(conversation_id, marker)),
                writing_order(),
            ),
            if limit < 1 {
                1
            } else {
                limit
            },
        )
    }

    /// The message with this identifier, unless it was deleted.
    pub open spec fn message(self, id: Seq<char>) -> Option<Message<Seq<char>>> {
        first_row(self.messages, is_kept_message(id))
    }

    /// What is stored after a message was added; `touched_at` is the time at
    /// which its conversation changed.
    pub open spec fn with_message(self, m: Message<Seq<char>>, touched_at: Seq<char>) -> Result<
        Tables,
        DbError,
    > {
        if self.any_message(m.id) is Some {
            Err(DbError::MessageExists)
        } else if !self.has_conversation(m.conversation_id) {
            Err(DbError::NoConversation)
        } else {
            Ok(
                Tables { messages: self.messages.push(m), ..self }.touched(
                    m.conversation_id,
                    touched_at,
                ),
            )
        }
    }

    /// What is stored without the summaries of a conversation.
    pub open spec fn without_summaries(self, conversation_id: Seq<char>) -> Tables {
        Tables {
            summaries: self.summaries.filter(
                summary_elsewhere(conversation_id),
            ),
            ..self
        }
    }

    /// What is stored after the content of a message was replaced.
    pub open spec fn with_content(
        self,
        message_id: Seq<char>,
        content: Seq<char>,
        now: Seq<char>,
    ) -> Tables {
        Tables {
            messages: changed(
                self.messages,
                is_kept_message(message_id),
                |m: Message<Seq<char>>| Message { content, updated_at: now, ..m },
            ),
            ..self
        }
    }

    /// What is stored after a message was marked as deleted or removed.
    pub open spec fn without_message(
        self,
        message_id: Seq<char>,
        soft: bool,
        reason: Seq<char>,
        now: Seq<char>,
    ) -> Tables {
        Tables {
            messages: if soft {
                changed(
                    self.messages,
                    is_kept_message(message_id),
                    |m: Message<Seq<char>>|
                        Message {
                            deleted_at: Some(now),
                            deleted_reason: trimmed(reason),
                            updated_at: now,
                            ..m
                        },
                )
            } else {
                self.messages.filter(is_other_message(message_id))
            },
            ..self
        }
    }

    /// What is stored without the messages of a conversation that were written
    /// after a time.
    pub open spec fn cut_after(self, conversation_id: Seq<char>, time: Seq<char>) -> Tables {
        Tables {
            messages: self.messages.filter(is_not_after(conversation_id, time)),
            ..self
        }
    }
}

/// A new message.
pub open spec fn new_message(
    id: Seq<char>,
    conversation_id: Seq<char>,
    role: Seq<char>,
    content: Seq<char>,
    reasoning_content: Seq<char>,
    token_usage: TokenUsage,
    created_at: Seq<char>,
) -> Message<Seq<char>> {
    Message {
        id,
        conversation_id,
        role,
        content,
        reasoning_content,
        token_usage,
        created_at,
        updated_at: created_at,
        deleted_at: None,
        deleted_reason: ""@,
    }
}

/// The part of a list that ends `offset` elements before its end and holds at
/// most `limit` elements; a negative limit is none.
pub fn take_page<T: View>(rows: Vec<T>, limit: i64, offset: i64) -> (r: Vec<T>)
    ensures
        views(r@) == page_from_end(views(rows@), limit as int, offset as int),
{
    let ghost all = views(rows@);
    let mut kept = rows;
    let skipped: u64 = if offset < 0 {
        0
    } else {
        offset as u64
    };
    let n: usize = kept.len();
    let end: usize = if n as u64 <= skipped {
        0
    } else {
        n - skipped as usize
    };
    kept.truncate(end);
    assert(views(kept@) =~= all.take(end as int));
    if limit < 0 || end as u64 <= limit as u64 {
        return kept;
    }
    let r = kept.split_off(end - limit as usize);
    assert(views(r@) =~= all.subrange(end - limit, end as int));
    r
}

impl Database {
    /// The messages of a conversation that were not deleted, the oldest first.
    pub fn all_messages(&self, conversation_id: &str) -> (r: Vec<Message>)
        ensures
            views(r@) == self@.timeline(conversation_id@),
    {
        let rows = select(
            &self.messages,
            |m: &Message| -> (r: bool)
                ensures
                    r == (m@.conversation_id == conversation_id@ && is_kept(m@))
                { text_eq(&m.conversation_id, conversation_id) && m.deleted_at.is_none() },
            Ghost(is_kept_in(conversation_id@)),
        );
        stable_sort(
            rows,
            |a: &Message, b: &Message| -> (r: bool)
                ensures
                    r == written_before(a@, b@)
                { le_text(&a.created_at, &b.created_at) },
            Ghost(writing_order()),
        )
    }

    /// A page of the messages of a conversation, counted from the newest, in
    /// the order in which they were written.
    pub fn list_messages(&self, conversation_id: &str, limit: i64, offset: i64) -> (r: Vec<Message>)
        ensures
            views(r@) == page_from_end(
                self@.timeline(conversation_id@),
                limit as int,
                offset as int,
            ),
    {
        take_page(self.all_messages(conversation_id), limit, offset)
    }

    /// The newest messages of a conversation in the order in which they were
    /// written.
    pub fn get_recent_messages(&self, conversation_id: &str, limit: i64) -> (r: Vec<Message>)
        ensures
            views(r@) == page_from_end(self@.timeline(conversation_id@), limit as int, 0),
    {
        take_page(self.all_messages(conversation_id), limit, 0)
    }

    /// The first messages of a conversation that were written after a time.
    pub fn list_messages_after(
        &self,
        conversation_id: &str,
        after_created_at: Option<&str>,
        limit: i64,
    ) -> (r: Vec<Message>)
        ensures
            views(r@) == self@.messages_after(
                conversation_id@,
                marker_of(opt_str(after_created_at)),
                limit as int,
            ),
    {
        let marker = match after_created_at {
            Some(t) => trim(t),
            None => String::new(),
        };
        assert(marker@ =~= marker_of(opt_str(after_created_at)));
        let ghost time = marker@;
        let rows = select(
            &self.messages,
            |m: &Message| -> (r: bool)
                ensures
                    r == (m@.conversation_id == conversation_id@ && is_kept(m@) && (time.len() == 0
                        || !text_le(m@.created_at, time)))
                {
                    text_eq(&m.conversation_id, conversation_id) && m.deleted_at.is_none() && (
                    marker.as_str().is_empty() || !le_text(&m.created_at, &marker))
                },
            Ghost(is_kept_after(conversation_id@, time)),
        );
        let mut rows = stable_sort(
            rows,
            |a: &Message, b: &Message| -> (r: bool)
                ensures
                    r == written_before(a@, b@)
                { le_text(&a.created_at, &b.created_at) },
            Ghost(writing_order()),
        );
        limit_rows(
            &mut rows,
            if limit < 1 {
                1
            } else {
                limit
            },
        );
        rows
    }

    /// The message with this identifier, unless it was deleted.
    pub fn get_message(&self, message_id: &str) -> (r: Option<Message>)
        ensures
            match r {
                Some(m) => self@.message(message_id@) == Some(m@),
                None => self@.message(message_id@) is None,
            },
    {
        let at = find_row(
            &self.messages,
            |m: &Message| -> (r: bool)
                ensures
                    r == (m@.id == message_id@ && is_kept(m@))
                { text_eq(&m.id, message_id) && m.deleted_at.is_none() },
            Ghost(is_kept_message(message_id@)),
        );
        match at {
            Some(i) => Some(self.messages[i].clone()),
            None => None,
        }
    }

    /// Adds a message; `touched_at` is the time at which its conversation
    /// changed.
    pub fn insert_message(&mut self, m: Message, touched_at: &str) -> (r: Result<(), DbError>)
        ensures
            carried_out(
                r,
                old(self)@.with_message(m@, touched_at@),
                old(self)@,
                final(self)@,
            ),
    {
        let ghost before = self@;
        if self.find_message(&m.id).is_some() {
            return Err(DbError::MessageExists);
        }
        if self.find_conversation(&m.conversation_id).is_none() {
            return Err(DbError::NoConversation);
        }
        let conversation_id = m.conversation_id.clone();
        let ghost next = before.messages.push(m@);
        self.messages.push(m);
        assert(views(self.messages@) =~= next);
        assert(self@ == Tables { messages: next, ..before });
        self.touch(&conversation_id, touched_at);
        Ok(())
    }

    /// Adds a message that is written at `now` under the identifier `id`.
    pub fn add_message_at(
        &mut self,
        conversation_id: &str,
        role: &str,
        content: &str,
        reasoning_content: &str,
        token_usage: &TokenUsage,
        id: &str,
        now: &str,
        touched_at: &str,
    ) -> (r: Result<(), DbError>)
        ensures
            carried_out(
                r,
                old(self)@.with_message(
                    new_message(
                        id@,
                        conversation_id@,
                        role@,
                        content@,
                        reasoning_content@,
                        *token_usage,
                        now@,
                    ),
                    touched_at@,
                ),
                old(self)@,
                final(self)@,
            ),
    {
        self.insert_message(
            Message {
                id: id.to_owned(),
                conversation_id: conversation_id.to_owned(),
                role: role.to_owned(),
                content: content.to_owned(),
                reasoning_content: reasoning_content.to_owned(),
                token_usage: *token_usage,
                created_at: now.to_owned(),
                updated_at: now.to_owned(),
                deleted_at: None,
                deleted_reason: "".to_owned(),
            },
            touched_at,
        )
    }

    /// Adds a message and returns its identifier.
    pub fn add_message(
        &mut self,
        conversation_id: &str,
        role: &str,
        content: &str,
        reasoning_content: &str,
        token_usage: &TokenUsage,
    ) -> (r: Result<String, DbError>)
        ensures
            exists|id: Seq<char>, now: Seq<char>, touched_at: Seq<char>|
                is_uuid(id) && is_time_text(now) && is_time_text(touched_at) && message_added(
                    r,
                    id,
                    #[trigger] old(self)@.with_message(
                        new_message(
                            id,
                            conversation_id@,
                            role@,
                            content@,
                            reasoning_content@,
                            *token_usage,
                            now,
                        ),
                        touched_at,
                    ),
                    old(self)@,
                    final(self)@,
                ),
    {
        let id = fresh_id();
        let now = now_iso();
        let touched_at = now_iso();
        match self.add_message_at(
            conversation_id,
            role,
            content,
            reasoning_content,
            token_usage,
            &id,
            &now,
            &touched_at,
        ) {
            Ok(_) => Ok(id),
            Err(e) => Err(e),
        }
    }

    /// Adds a message that was written elsewhere at `created_at` and returns
    /// its identifier.
    pub fn insert_imported_message(
        &mut self,
        conversation_id: &str,
        role: &str,
        content: &str,
        reasoning_content: &str,
        created_at: &str,
    ) -> (r: Result<String, DbError>)
        ensures
            exists|id: Seq<char>, touched_at: Seq<char>|
                is_uuid(id) && is_time_text(touched_at) && message_added(
                    r,
                    id,
                    #[trigger] old(self)@.with_message(
                        new_message(
                            id,
                            conversation_id@,
                            role@,
                            content@,
                            reasoning_content@,
                            TokenUsage::zero(),
                            created_at@,
                        ),
                        touched_at,
                    ),
                    old(self)@,
                    final(self)@,
                ),
    {
        let id = fresh_id();
        let touched_at = now_iso();
        let usage = TokenUsage::default();
        match self.add_message_at(
            conversation_id,
            role,
            content,
            reasoning_content,
            &usage,
            &id,
            created_at,
            &touched_at,
        ) {
            Ok(_) => Ok(id),
            Err(e) => Err(e),
        }
    }

    /// Replaces the content of a message at `now`.
    pub fn update_message_content_at(&mut self, message_id: &str, content: &str, now: &str)
        ensures
            final(self)@ == old(self)@.with_content(message_id@, content@, now@),
    {
        change_rows(
            &mut self.messages,
            |m: &Message| -> (r: bool)
                ensures
                    r == (m@.id == message_id@ && is_kept(m@))
                { text_eq(&m.id, message_id) && m.deleted_at.is_none() },
            |m: &Message| -> (r: Message)
                ensures
                    r@ == (Message { content: content@, updated_at: now@, ..m@ })
                {
                    let mut d = m.clone();
                    d.content = content.to_owned();
                    d.updated_at = now.to_owned();
                    d
                },
            Ghost(is_kept_message(message_id@)),
            Ghost(|m: Message<Seq<char>>| Message { content: content@, updated_at: now@, ..m }),
        );
    }

    /// Replaces the content of a message.
    pub fn update_message_content(&mut self, message_id: &str, content: &str)
        ensures
            exists|now: Seq<char>|
                is_time_text(now) && final(self)@ == #[trigger] old(self)@.with_content(
                    message_id@,
                    content@,
                    now,
                ),
    {
        let now = now_iso();
        self.update_message_content_at(message_id, content, &now)
    }

    /// Removes the summaries of a conversation.
    pub fn drop_summaries(&mut self, conversation_id: &str)
        ensures
            final(self)@ == old(self)@.without_summaries(conversation_id@),
    {
        keep_rows(
            &mut self.summaries,
            |s: &SummaryRow| -> (r: bool)
                ensures
                    r == (s@.conversation_id != conversation_id@)
                { !text_eq(&s.conversation_id, conversation_id) },
            Ghost(summary_elsewhere(conversation_id@)),
        );
    }

    /// Marks a message as deleted, or removes it, at `now`.
    fn remove_message(&mut self, message_id: &str, soft: bool, reason: &str, now: &str)
        ensures
            final(self)@ == old(self)@.without_message(message_id@, soft, reason@, now@),
    {
        let why = trim(reason);
        if soft {
            change_rows(
                &mut self.messages,
                |m: &Message| -> (r: bool)
                    ensures
                        r == (m@.id == message_id@ && is_kept(m@))
                    { text_eq(&m.id, message_id) && m.deleted_at.is_none() },
                |m: &Message| -> (r: Message)
                    ensures
                        r@ == (Message {
                            deleted_at: Some(now@),
                            deleted_reason: trimmed(reason@),
                            updated_at: now@,
                            ..m@
                        })
                    {
                        let mut d = m.clone();
                        d.deleted_at = Some(now.to_owned());
                        d.deleted_reason = why.clone();
                        d.updated_at = now.to_owned();
                        d
                    },
                Ghost(is_kept_message(message_id@)),
                Ghost(
                    |m: Message<Seq<char>>|
                        Message {
                            deleted_at: Some(now@),
                            deleted_reason: trimmed(reason@),
                            updated_at: now@,
                            ..m
                        },
                ),
            );
        } else {
            keep_rows(
                &mut self.messages,
                |m: &Message| -> (r: bool)
                    ensures
                        r == (m@.id != message_id@)
                    { !text_eq(&m.id, message_id) },
                Ghost(is_other_message(message_id@)),
            );
        }
    }

    /// Deletes a message at `now`, and the summaries of its conversation, whose
    /// identifier is returned.
    pub fn delete_message_at(
        &mut self,
        message_id: &str,
        soft: bool,
        reason: &str,
        now: &str,
        touched_at: &str,
    ) -> (r: Option<String>)
        ensures
            old(self)@.message_deleted(
                message_id@,
                soft,
                reason@,
                now@,
                touched_at@,
            ) == (final(self)@, opt_text(r)),
    {
        let conversation_id = match self.find_message(message_id) {
            Some(i) => self.messages[i].conversation_id.clone(),
            None => {
                return None;
            },
        };
        self.remove_message(message_id, soft, reason, now);
        self.drop_summaries(&conversation_id);
        self.touch(&conversation_id, touched_at);
        Some(conversation_id)
    }

    /// Deletes a message, and the summaries of its conversation, whose
    /// identifier is returned.
    pub fn delete_message(&mut self, message_id: &str, soft: bool, reason: &str) -> (r: Option<
        String,
    >)
        ensures
            exists|now: Seq<char>, touched_at: Seq<char>|
                is_time_text(now) && is_time_text(touched_at) && #[trigger] old(
                    self,
                )@.message_deleted(message_id@, soft, reason@, now, touched_at) == (
                    final(self)@,
                    opt_text(r),
                ),
    {
        let now = now_iso();
        let touched_at = now_iso();
        self.delete_message_at(message_id, soft, reason, &now, &touched_at)
    }

    /// Removes the messages that were written after this one, and the summaries
    /// of its conversation, whose identifier is returned.
    pub fn truncate_messages_after_at(&mut self, message_id: &str, touched_at: &str) -> (r: Option<
        String,
    >)
        ensures
            old(self)@.truncated_after(message_id@, touched_at@) == (final(self)@, opt_text(r)),
    {
        let m = match self.get_message(message_id) {
            Some(m) => m,
            None => {
                return None;
            },
        };
        keep_rows(
            &mut self.messages,
            |x: &Message| -> (r: bool)
                ensures
                    r == !(x@.conversation_id == m@.conversation_id && !text_le(
                        x@.created_at,
                        m@.created_at,
                    ))
                {
                    !(text_eq(&x.conversation_id, &m.conversation_id) && !le_text(
                        &x.created_at,
                        &m.created_at,
                    ))
                },
            Ghost(is_not_after(m@.conversation_id, m@.created_at)),
        );
        self.drop_summaries(&m.conversation_id);
        self.touch(&m.conversation_id, touched_at);
        Some(m.conversation_id)
    }

    /// Removes the messages that were written after this one, and the summaries
    /// of its conversation, whose identifier is returned.
    pub fn truncate_messages_after(&mut self, message_id: &str) -> (r: Option<String>)
        ensures
            exists|touched_at: Seq<char>|
                is_time_text(touched_at) && #[trigger] old(self)@.truncated_after(
                    message_id@,
                    touched_at,
                ) == (final(self)@, opt_text(r)),
    {
        let touched_at = now_iso();
        self.truncate_messages_after_at(message_id, &touched_at)
    }
}

/// A message was added under `id`, or refused, as `want` says.
pub open spec fn message_added(
    r: Result<String, DbError>,
    id: Seq<char>,
    want: Result<Tables, DbError>,
    before: Tables,
    after: Tables,
) -> bool {
    match want {
        Ok(t) => after == t && match r {
            Ok(s) => s@ == id,
            Err(_) => false,
        },
        Err(e) => r == Err::<String, DbError>(e) && after == before,
    }
}

impl Tables {
    /// What is stored after a message was deleted, and the conversation that it
    /// belonged to; the conversation is summarised anew.
    pub open spec fn message_deleted(
        self,
        message_id: Seq<char>,
        soft: bool,
        reason: Seq<char>,
        now: Seq<char>,
        touched_at: Seq<char>,
    ) -> (Tables, Option<Seq<char>>) {
        match self.any_message(message_id) {
            Some(m) => (
                self.without_message(message_id, soft, reason, now).without_summaries(
                    m.conversation_id,
                ).touched(m.conversation_id, touched_at),
                Some(m.conversation_id),
            ),
            None => (self, None),
        }
    }

    /// What is stored after the messages behind this one were removed, and the
    /// conversation that it belongs to; the conversation is summarised anew.
    pub open spec fn truncated_after(self, message_id: Seq<char>, touched_at: Seq<char>) -> (
        Tables,
        Option<Seq<char>>,
    ) {
        match self.message(message_id) {
            Some(m) => (
                self.cut_after(m.conversation_id, m.created_at).without_summaries(
                    m.conversation_id,
                ).touched(m.conversation_id, touched_at),
                Some(m.conversation_id),
            ),
            None => (self, None),
        }
    }
}

// ---------------------------------------------------------------------------
// Laws
// ---------------------------------------------------------------------------

/// The order in which messages were written is an order.
pub proof fn law_writing_order_is_order()
    ensures
        is_order(writing_order()),
{
    let le = writing_order();
    assert forall|a: Message<Seq<char>>, b: Message<Seq<char>>| #[trigger] le(a, b) || le(b, a) by {
        law_text_order_total(a.created_at, b.created_at);
    }
    assert forall|a: Message<Seq<char>>, b: Message<Seq<char>>, c: Message<Seq<char>>| #[trigger]
        le(a, b) && #[trigger] le(b, c) implies le(a, c) by {
        law_text_order_transitive(a.created_at, b.created_at, c.created_at);
    }
}

/// The messages of a conversation are those that belong to it and were not
/// deleted, in the order in which they were written.
pub proof fn law_timeline(t: Tables, conversation_id: Seq<char>)
    ensures
        is_sorted(t.timeline(conversation_id), writing_order()),
        forall|m: Message<Seq<char>>|
            #[trigger] t.timeline(conversation_id).contains(m) <==> t.messages.contains(m)
                && m.conversation_id == conversation_id && is_kept(m),
{
    let p = is_kept_in(conversation_id);
    let kept = t.messages.filter(p);
    let all = t.timeline(conversation_id);
    law_writing_order_is_order();
    law_sorted(kept, writing_order());
    assert forall|m: Message<Seq<char>>| #[trigger] all.contains(m) <==> t.messages.contains(m)
        && m.conversation_id == conversation_id && is_kept(m) by {
        if all.contains(m) {
            let k = choose|k: int| 0 <= k < all.len() && all[k] == m;
            let i = lemma_sorted_from(kept, writing_order(), k);
            let j = lemma_filter_member(t.messages, p, i);
            assert(t.messages[j] == m);
        }
        if t.messages.contains(m) && m.conversation_id == conversation_id && is_kept(m) {
            let j = choose|j: int| 0 <= j < t.messages.len() && t.messages[j] == m;
            let i = lemma_filter_keeps(t.messages, p, j);
            let k = lemma_sorted_has(kept, writing_order(), i);
            assert(all[k] == m);
        }
    }
}

/// A deleted message, marked or removed, is no message of any conversation any
/// more, and the summaries of its conversation are gone.
pub proof fn law_deleted_message_is_gone(
    t: Tables,
    message_id: Seq<char>,
    soft: bool,
    reason: Seq<char>,
    now: Seq<char>,
    touched_at: Seq<char>,
    conversation_id: Seq<char>,
)
    ensures
        ({
            let (u, owner) = t.message_deleted(message_id, soft, reason, now, touched_at);
            &&& forall|m: Message<Seq<char>>|
                #[trigger] u.timeline(conversation_id).contains(m) ==> m.id != message_id
            &&& match owner {
                Some(id) => u.summaries_of(id).len() == 0,
                None => t.any_message(message_id) is None,
            }
        }),
{
    let (u, owner) = t.message_deleted(message_id, soft, reason, now, touched_at);
    law_timeline(u, conversation_id);
    match t.any_message(message_id) {
        None => {
            lemma_first_where(t.messages, is_message(message_id));
            assert forall|m: Message<Seq<char>>| #[trigger]
                u.timeline(conversation_id).contains(m) implies m.id != message_id by {
                let j = choose|j: int| 0 <= j < t.messages.len() && t.messages[j] == m;
                assert(!is_message(message_id)(t.messages[j]));
            }
        },
        Some(x) => {
            let w = t.without_message(message_id, soft, reason, now);
            assert(u.messages == w.messages);
            assert forall|m: Message<Seq<char>>| #[trigger]
                u.timeline(conversation_id).contains(m) implies m.id != message_id by {
                let j = choose|j: int| 0 <= j < u.messages.len() && u.messages[j] == m;
                if soft {
                    assert(w.messages[j] == m);
                } else {
                    let k = lemma_filter_member(t.messages, is_other_message(message_id), j);
                }
            }
            let id = x.conversation_id;
            let left = t.summaries.filter(summary_elsewhere(id));
            assert(u.summaries == left);
            let mine = left.filter(is_summary_of(id));
            if mine.len() > 0 {
                let i = lemma_filter_member(left, is_summary_of(id), 0);
                let j = lemma_filter_member(t.summaries, summary_elsewhere(id), i);
            }
            law_sorted(mine, newest_segment_first());
        },
    }
}

/// When the messages behind one were removed, none of its conversation was
/// written after it, it is still there, and other conversations are as they
/// were.
pub proof fn law_nothing_follows_after_truncation(
    t: Tables,
    message_id: Seq<char>,
    touched_at: Seq<char>,
    other: Seq<char>,
)
    requires
        t.message(message_id) is Some,
        other != t.message(message_id)->0.conversation_id,
    ensures
        ({
            let m = t.message(message_id)->0;
            let (u, owner) = t.truncated_after(message_id, touched_at);
            &&& owner == Some(m.conversation_id)
            &&& u.timeline(m.conversation_id).contains(m)
            &&& forall|x: Message<Seq<char>>|
                #[trigger] u.timeline(m.conversation_id).contains(x) ==> text_le(
                    x.created_at,
                    m.created_at,
                )
            &&& forall|x: Message<Seq<char>>|
                #[trigger] u.timeline(other).contains(x) <==> t.timeline(other).contains(x)
        }),
{
    let m = t.message(message_id)->0;
    let (u, owner) = t.truncated_after(message_id, touched_at);
    let p = is_not_after(m.conversation_id, m.created_at);
    assert(u.messages == t.messages.filter(p));
    lemma_first_where(t.messages, is_kept_message(message_id));
    let at = first_where(t.messages, is_kept_message(message_id))->0;
    law_text_order_total(m.created_at, m.created_at);
    let k = lemma_filter_keeps(t.messages, p, at);
    law_timeline(u, m.conversation_id);
    law_timeline(u, other);
    law_timeline(t, other);
    assert(u.messages[k] == m);
    assert(u.messages.contains(m));
    assert forall|x: Message<Seq<char>>| #[trigger]
        u.timeline(m.conversation_id).contains(x) implies text_le(x.created_at, m.created_at) by {
        let i = choose|i: int| 0 <= i < u.messages.len() && u.messages[i] == x;
        let j = lemma_filter_member(t.messages, p, i);
    }
    assert forall|x: Message<Seq<char>>| #[trigger] u.timeline(other).contains(x) <==> t.timeline(
        other,
    ).contains(x) by {
        if u.messages.contains(x) {
            let i = choose|i: int| 0 <= i < u.messages.len() && u.messages[i] == x;
            let j = lemma_filter_member(t.messages, p, i);
            assert(t.messages[j] == x);
        }
        if t.messages.contains(x) && x.conversation_id == other {
            let j = choose|j: int| 0 <= j < t.messages.len() && t.messages[j] == x;
            let i = lemma_filter_keeps(t.messages, p, j);
            assert(u.messages[i] == x);
        }
    }
}

/// What is to be summarised are messages of the conversation that were not
/// deleted and that no summary covers yet.
pub proof fn law_summarised_messages_were_not_deleted(
    t: Tables,
    conversation_id: Seq<char>,
    marker: Seq<char>,
    limit: int,
    i: int,
)
    requires
        0 <= i < t.messages_after(conversation_id, marker, limit).len(),
    ensures
        ({
            let m = t.messages_after(conversation_id, marker, limit)[i];
            &&& t.messages.contains(m)
            &&& m.conversation_id == conversation_id
            &&& is_kept(m)
            &&& marker.len() > 0 ==> !text_le(m.created_at, marker)
        }),
{
    let p = is_kept_after(conversation_id, marker);
    let kept = t.messages.filter(p);
    law_sorted(kept, writing_order());
    let a = lemma_sorted_from(kept, writing_order(), i);
    let b = lemma_filter_member(t.messages, p, a);
    assert(t.messages[b] == t.messages_after(conversation_id, marker, limit)[i]);
}

/// A message that was added is found by its identifier and among the messages
/// of its conversation, and all others are as they were.
pub proof fn law_added_message_is_there(
    t: Tables,
    m: Message<Seq<char>>,
    touched_at: Seq<char>,
    other: Seq<char>,
)
    requires
        is_kept(m),
        other != m.id,
    ensures
        match t.with_message(m, touched_at) {
            Ok(u) => {
                &&& u.message(m.id) == Some(m)
                &&& u.timeline(m.conversation_id).contains(m)
                &&& u.message(other) == t.message(other)
            },
            Err(e) => e == DbError::MessageExists || e == DbError::NoConversation,
        },
{
    match t.with_message(m, touched_at) {
        Ok(u) => {
            let n = t.messages.len() as int;
            assert(u.messages == t.messages.push(m));
            assert(u.messages.drop_last() =~= t.messages);
            lemma_first_where(t.messages, is_message(m.id));
            lemma_first_where(t.messages, is_kept_message(m.id));
            match first_where(t.messages, is_kept_message(m.id)) {
                Some(i) => {
                    assert(!is_message(m.id)(t.messages[i]));
                },
                None => {},
            }
            assert(u.messages[n] == m);
            assert(u.messages.contains(m));
            law_timeline(u, m.conversation_id);
            lemma_first_where(t.messages, is_kept_message(other));
        },
        Err(_) => {},
    }
}

} // verus!
