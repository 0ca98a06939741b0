//! The summaries of old parts of conversations.
use vstd::prelude::*;
use crate::db::{carried_out, Database, DbError, Tables};
use crate::models::{SummaryRecord, SummaryRow};
use crate::sorting::{sorted, stable_sort, views};
use crate::stamps::{fresh_id, is_time_text, is_uuid, now_iso};
use crate::table::{find_row, first_where, limit_rows, limited, select};
use crate::text::{opt_text, text_eq};

verus! {

/// A summary as it is handed out.
pub open spec fn record_of(s: SummaryRow<Seq<char>>) -> SummaryRecord<Seq<char>> {
    SummaryRecord {
        conversation_id: s.conversation_id,
        segment_index: s.segment_index,
        summary: s.summary,
        covered_start_message_id: s.covered_start_message_id,
        covered_end_message_id: s.covered_end_message_id,
        covered_start_created_at: s.covered_start_created_at,
        covered_end_created_at: s.covered_end_created_at,
        source_message_count: s.source_message_count,
        updated_at: s.updated_at,
    }
}

/// A summary as it is handed out.
fn to_record(s: &SummaryRow) -> (r: SummaryRecord)
    ensures
        r@ == record_of(s@),
{
    SummaryRecord {
        conversation_id: s.conversation_id.clone(),
        segment_index: s.segment_index,
        summary: s.summary.clone(),
        covered_start_message_id: s.covered_start_message_id.clone(),
        covered_end_message_id: s.covered_end_message_id.clone(),
        covered_start_created_at: s.covered_start_created_at.clone(),
        covered_end_created_at: s.covered_end_created_at.clone(),
        source_message_count: s.source_message_count,
        updated_at: s.updated_at.clone(),
    }
}

/// The summary has this identifier.
pub open spec fn is_summary(id: Seq<char>) -> spec_fn(SummaryRow<Seq<char>>) -> bool {
    |s: SummaryRow<Seq<char>>| s.id == id
}

/// The summary is this segment of this conversation.
pub open spec fn is_segment(conversation_id: Seq<char>, segment_index: i64) -> spec_fn(
    SummaryRow<Seq<char>>,
) -> bool {
    |s: SummaryRow<Seq<char>>|
        s.conversation_id == conversation_id && s.segment_index == segment_index
}

/// The summary belongs to this conversation.
pub open spec fn is_summary_of(conversation_id: Seq<char>) -> spec_fn(
    SummaryRow<Seq<char>>,
) -> bool {
    |s: SummaryRow<Seq<char>>| s.conversation_id == conversation_id
}

/// The newest segment first.
pub open spec fn newest_segment_first() -> spec_fn(
    SummaryRow<Seq<char>>,
    SummaryRow<Seq<char>>,
) -> bool {
    |a: SummaryRow<Seq<char>>, b: SummaryRow<Seq<char>>| a.segment_index >= b.segment_index
}

/// The largest number of a summary of a conversation.
pub open spec fn last_index(rows: Seq<SummaryRow<Seq<char>>>, conversation_id: Seq<char>) -> Option<
    i64,
>
    decreases rows.len(),
{
    if rows.len() == 0 {
        None
    } else {
        let before = last_index(rows.drop_last(), conversation_id);
        let s = rows.last();
        if s.conversation_id == conversation_id && (match before {
            Some(n) => n < s.segment_index,
            None => true,
        }) {
            Some(s.segment_index)
        } else {
            before
        }
    }
}

/// The number of the next summary of a conversation. Where the numbers are
/// used up they start again.
pub open spec fn next_index(rows: Seq<SummaryRow<Seq<char>>>, conversation_id: Seq<char>) -> i64 {
    match last_index(rows, conversation_id) {
        Some(n) => if n == i64::MAX {
            0
        } else {
            (n + 1) as i64
        },
        None => 0,
    }
}

impl Tables {
    /// The summaries of a conversation, the newest first.
    pub open spec fn summaries_of(self, conversation_id: Seq<char>) -> Seq<SummaryRow<Seq<char>>> {
        sorted(
            self.summaries.filter(is_summary_of(conversation_id)),
            newest_segment_first(),
        )
    }

    /// The newest summaries of a conversation, as they are handed out.
    pub open spec fn summary_records(self, conversation_id: Seq<char>, limit: int) -> Seq<
        SummaryRecord<Seq<char>>,
    > {
        let rows = limited(
            self.summaries_of(conversation_id),
            if limit < 1 {
                1
            } else {
                limit
            },
        );
        Seq::new(rows.len(), |i: int| record_of(rows[i]))
    }

    /// When the last message was written that a summary covers.
    pub open spec fn summarised_until(self, conversation_id: Seq<char>) -> Option<Seq<char>> {
        let rows = self.summaries_of(conversation_id);
        if rows.len() == 0 {
            None
        } else {
            Some(rows[0].covered_end_created_at)
        }
    }

    /// What is stored after a summary was added.
    pub open spec fn with_summary(self, s: SummaryRow<Seq<char>>) -> Result<Tables, DbError> {
        if first_where(self.summaries, is_summary(s.id)) is Some {
            Err(DbError::SummaryExists)
        } else if first_where(
            self.summaries,
            is_segment(s.conversation_id, s.segment_index),
        ) is Some {
            Err(DbError::SegmentExists)
        } else if !self.has_conversation(s.conversation_id) {
            Err(DbError::NoConversation)
        } else {
            Ok(Tables { summaries: self.summaries.push(s), ..self })
        }
    }

    /// The summary of the next segment of a conversation.
    pub open spec fn next_summary(
        self,
        conversation_id: Seq<char>,
        summary: Seq<char>,
        covered_start_message_id: Seq<char>,
        covered_end_message_id: Seq<char>,
        covered_start_created_at: Seq<char>,
        covered_end_created_at: Seq<char>,
        source_message_count: i64,
        id: Seq<char>,
        now: Seq<char>,
    ) -> SummaryRow<Seq<char>> {
        SummaryRow {
            id,
            conversation_id,
            segment_index: next_index(self.summaries, conversation_id),
            summary,
            covered_start_message_id,
            covered_end_message_id,
            covered_start_created_at,
            covered_end_created_at,
            source_message_count: if source_message_count < 0 {
                0
            } else {
                source_message_count
            },
            created_at: now,
            updated_at: now,
        }
    }
}

impl Database {
    /// The number of the next summary of a conversation.
    fn next_segment(&self, conversation_id: &str) -> (r: i64)
        ensures
            r == next_index(self@.summaries, conversation_id@),
    {
        let ghost all = self@.summaries;
        let mut last: Option<i64> = None;
        for i in 0..self.summaries.len()
            invariant
                all == views(self.summaries@),
                last == last_index(all.take(i as int), conversation_id@),
        {
            assert(all.take(i + 1).drop_last() =~= all.take(i as int));
            let s = &self.summaries[i];
            if text_eq(&s.conversation_id, conversation_id) {
                let newer = match last {
                    Some(n) => n < s.segment_index,
                    None => true,
                };
                if newer {
                    last = Some(s.segment_index);
                }
            }
        }
        assert(all.take(all.len() as int) =~= all);
        match last {
            Some(n) => if n == i64::MAX {
                0
            } else {
                n + 1
            },
            None => 0,
        }
    }

    /// The summaries of a conversation, the newest first.
    fn sorted_summaries(&self, conversation_id: &str) -> (r: Vec<SummaryRow>)
        ensures
            views(r@) == self@.summaries_of(conversation_id@),
    {
        let rows = select(
            &self.summaries,
            |s: &SummaryRow| -> (r: bool)
                ensures
                    r == (s@.conversation_id == conversation_id@)
                { text_eq(&s.conversation_id, conversation_id) },
            Ghost(is_summary_of(conversation_id@)),
        );
        stable_sort(
            rows,
            |a: &SummaryRow, b: &SummaryRow| -> (r: bool)
                ensures
                    r == (a@.segment_index >= b@.segment_index)
                { a.segment_index >= b.segment_index },
            Ghost(newest_segment_first()),
        )
    }

    /// The newest summaries of a conversation, the newest first.
    pub fn list_summary_segments(&self, conversation_id: &str, limit: i64) -> (r: Vec<
        SummaryRecord,
    >)
        ensures
            views(r@) == self@.summary_records(conversation_id@, limit as int),
    {
        let mut rows = self.sorted_summaries(conversation_id);
        limit_rows(
            &mut rows,
            if limit < 1 {
                1
            } else {
                limit
            },
        );
        let ghost all = self@.summary_records(conversation_id@, limit as int);
        let mut out: Vec<SummaryRecord> = Vec::new();
        for i in 0..rows.len()
            invariant
                all.len() == rows@.len(),
                forall|k: int| 0 <= k < all.len() ==> all[k] == record_of(#[trigger] rows@[k]@),
                views(out@) == all.take(i as int),
        {
            let x = to_record(&rows[i]);
            let ghost next = views(out@).push(x@);
            out.push(x);
            assert(views(out@) =~= next);
            assert(all.take(i + 1) =~= next);
        }
        assert(all.take(all.len() as int) =~= all);
        out
    }

    /// When the last message was written that a summary covers.
    pub fn latest_summary_end_created_at(&self, conversation_id: &str) -> (r: Option<String>)
        ensures
            opt_text(r) == self@.summarised_until(conversation_id@),
    {
        let rows = self.sorted_summaries(conversation_id);
        if rows.len() == 0 {
            None
        } else {
            assert(views(rows@)[0] == rows@[0]@);
            Some(rows[0].covered_end_created_at.clone())
        }
    }

    /// Adds a summary.
    pub fn insert_summary(&mut self, s: SummaryRow) -> (r: Result<(), DbError>)
        ensures
            carried_out(r, old(self)@.with_summary(s@), old(self)@, final(self)@),
    {
        let same_id = find_row(
            &self.summaries,
            |x: &SummaryRow| -> (r: bool)
                ensures
                    r == (x@.id == s@.id)
                { text_eq(&x.id, &s.id) },
            Ghost(is_summary(s@.id)),
        );
        if same_id.is_some() {
            return Err(DbError::SummaryExists);
        }
        let same_segment = find_row(
            &self.summaries,
            |x: &SummaryRow| -> (r: bool)
                ensures
                    r == (x@.conversation_id == s@.conversation_id && x@.segment_index
                        == s@.segment_index)
                {
                    text_eq(&x.conversation_id, &s.conversation_id) && x.segment_index
                        == s.segment_index
                },
            Ghost(is_segment(s@.conversation_id, s@.segment_index)),
        );
        if same_segment.is_some() {
            return Err(DbError::SegmentExists);
        }
        if self.find_conversation(&s.conversation_id).is_none() {
            return Err(DbError::NoConversation);
        }
        let ghost next = self@.summaries.push(s@);
        self.summaries.push(s);
        assert(views(self.summaries@) =~= next);
        Ok(())
    }

    /// Adds the summary of the next segment of a conversation at `now` under
    /// the identifier `id`.
    pub fn append_summary_segment_at(
        &mut self,
        conversation_id: &str,
        summary: &str,
        covered_start_message_id: &str,
        covered_end_message_id: &str,
        covered_start_created_at: &str,
        covered_end_created_at: &str,
        source_message_count: i64,
        id: &str,
        now: &str,
    ) -> (r: Result<(), DbError>)
        ensures
            carried_out(
                r,
                old(self)@.with_summary(
                    old(self)@.next_summary(
                        conversation_id@,
                        summary@,
                        covered_start_message_id@,
                        covered_end_message_id@,
                        covered_start_created_at@,
                        covered_end_created_at@,
                        source_message_count,
                        id@,
                        now@,
                    ),
                ),
                old(self)@,
                final(self)@,
            ),
    {
        let segment_index: i64 = self.next_segment(conversation_id);
        let s = SummaryRow {
            id: id.to_owned(),
            conversation_id: conversation_id.to_owned(),
            segment_index,
            summary: summary.to_owned(),
            covered_start_message_id: covered_start_message_id.to_owned(),
            covered_end_message_id: covered_end_message_id.to_owned(),
            covered_start_created_at: covered_start_created_at.to_owned(),
            covered_end_created_at: covered_end_created_at.to_owned(),
            source_message_count: if source_message_count < 0 {
                0
            } else {
                source_message_count
            },
            created_at: now.to_owned(),
            updated_at: now.to_owned(),
        };
        self.insert_summary(s)
    }

    /// Adds the summary of the next segment of a conversation.
    pub fn append_summary_segment(
        &mut self,
        conversation_id: &str,
        summary: &str,
        covered_start_message_id: &str,
        covered_end_message_id: &str,
        covered_start_created_at: &str,
        covered_end_created_at: &str,
        source_message_count: i64,
    ) -> (r: Result<(), DbError>)
        ensures
            exists|id: Seq<char>, now: Seq<char>|
                is_uuid(id) && is_time_text(now) && carried_out(
                    r,
                    old(self)@.with_summary(
                        #[trigger] old(self)@.next_summary(
                            conversation_id@,
                            summary@,
                            covered_start_message_id@,
                            covered_end_message_id@,
                            covered_start_created_at@,
                            covered_end_created_at@,
                            source_message_count,
                            id,
                            now,
                        ),
                    ),
                    old(self)@,
                    final(self)@,
                ),
    {
        let id = fresh_id();
        let now = now_iso();
        self.append_summary_segment_at(
            conversation_id,
            summary,
            covered_start_message_id,
            covered_end_message_id,
            covered_start_created_at,
            covered_end_created_at,
            source_message_count,
            &id,
            &now,
        )
    }
}

} // verus!
