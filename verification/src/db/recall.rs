//! Which memories are shown and which come to mind.
use vstd::prelude::*;
use crate::db::memories::{
    filled, filled_text, likeness, memory_before, opt_ref, precedes, raised, rate_likeness,
    weight_order,
};
use crate::db::{
    file_elsewhere, is_conversation, is_other_conversation, message_elsewhere, summary_elsewhere,
    Database, Tables,
};
use crate::memory::{matchable, normalize_for_match};
use crate::models::{copy_opt, ConversationRow, Memory, MemoryRow};
use crate::db::order_laws::lemma_sorted_from;
use crate::db::soundness::{law_sound_without_conversation, lemma_filter_member};
use crate::sorting::{is_order, law_sorted, sorted, stable_sort, views};
use crate::stamps::{is_time_text, now_iso};
use crate::table::{
    change_rows, changed, first_row, lemma_first_where, limit_rows, limited, select,
};
use crate::text::{
    before_nul, char_count, clip_chars, clipped, law_text_order_total, law_text_order_transitive,
    opt_str, opt_text, text_before_nul, text_eq, trim, trimmed,
};

verus! {

impl Tables {
    /// A memory as it is shown, with what is left of its source.
    pub open spec fn shown(self, m: MemoryRow<Seq<char>>) -> Memory<Seq<char>> {
        let conversation = match m.source_conversation_id {
            Some(id) => self.conversation(id),
            None => None,
        };
        let message = match m.source_message_id {
            Some(id) => self.any_message(id),
            None => None,
        };
        Memory {
            id: m.id,
            content: m.content,
            importance: m.importance,
            created_at: m.created_at,
            updated_at: m.updated_at,
            last_used_at: m.last_used_at,
            scope: m.scope,
            conversation_id: m.conversation_id,
            source_message_id: m.source_message_id,
            source_conversation_id: m.source_conversation_id,
            source_conversation_title: match conversation {
                Some(c) => Some(c.title),
                None => None,
            },
            source_message_preview: match message {
                Some(msg) => Some(clipped(before_nul(msg.content), 200)),
                None => None,
            },
            source_conversation_deleted: filled(m.source_conversation_id) is Some
                && conversation is None,
            source_message_deleted: filled(m.source_message_id) is Some && match message {
                Some(msg) => filled(msg.deleted_at) is Some,
                None => true,
            },
        }
    }

    /// The memory is for every conversation, or for one that exists.
    pub open spec fn is_live(self, m: MemoryRow<Seq<char>>) -> bool {
        m.scope == "global"@ || (m.scope == "conversation"@ && match m.conversation_id {
            Some(id) => self.has_conversation(id),
            None => false,
        })
    }

    /// The memory is for every conversation, or for this one.
    pub open spec fn is_for(
        self,
        m: MemoryRow<Seq<char>>,
        conversation_id: Option<Seq<char>>,
    ) -> bool {
        m.scope == "global"@ || (m.scope == "conversation"@ && match conversation_id {
            Some(id) => m.conversation_id == Some(id) && self.has_conversation(id),
            None => false,
        })
    }

    /// The memory is for every conversation, or for one that exists.
    pub open spec fn live(self) -> spec_fn(MemoryRow<Seq<char>>) -> bool {
        |m: MemoryRow<Seq<char>>| self.is_live(m)
    }

    /// The memory is for every conversation, or for this one.
    pub open spec fn meant_for(self, conversation_id: Option<Seq<char>>) -> spec_fn(
        MemoryRow<Seq<char>>,
    ) -> bool {
        |m: MemoryRow<Seq<char>>| self.is_for(m, conversation_id)
    }

    /// The live memories, the weightiest first.
    pub open spec fn live_memories(self, limit: int) -> Seq<MemoryRow<Seq<char>>> {
        limited(
            sorted(
                self.memories.filter(self.live()),
                weight_order(),
            ),
            limit,
        )
    }

    /// The memories for a conversation, the weightiest first.
    pub open spec fn memories_for(
        self,
        conversation_id: Option<Seq<char>>,
        limit: int,
    ) -> Seq<MemoryRow<Seq<char>>> {
        limited(
            sorted(
                self.memories.filter(self.meant_for(conversation_id)),
                weight_order(),
            ),
            limit,
        )
    }

    /// Memories as they are shown.
    pub open spec fn all_shown(self, rows: Seq<MemoryRow<Seq<char>>>) -> Seq<Memory<Seq<char>>> {
        Seq::new(rows.len(), |i: int| self.shown(rows[i]))
    }

    /// The memories on the page of a conversation; all of them where no
    /// conversation is open.
    pub open spec fn memory_page(self, conversation_id: Seq<char>, limit: int) -> Seq<
        Memory<Seq<char>>,
    > {
        if trimmed(conversation_id).len() == 0 {
            self.all_shown(self.live_memories(limit))
        } else {
            self.all_shown(self.memories_for(Some(trimmed(conversation_id)), limit))
        }
    }
}

/// How many memories are searched.
pub const SEARCH_SCAN_LIMIT: i64 = 800;

/// How much a memory has to do with a question.
pub open spec fn relevance(m: MemoryRow<Seq<char>>, question: Seq<char>) -> int {
    likeness(m, question, matchable(question)) + m.importance + (if m.scope == "conversation"@ {
        2int
    } else {
        0
    }) + (if m.content.len() > 160 {
        1int
    } else {
        0
    })
}

/// A memory with how much it has to do with a question.
pub struct Scored<S = String> {
    pub score: i128,
    pub row: MemoryRow<S>,
}

impl View for Scored<String> {
    type V = Scored<Seq<char>>;

    open spec fn view(&self) -> Scored<Seq<char>> {
        Scored { score: self.score, row: self.row@ }
    }
}

/// The memories that have to do with a question, each with its score.
pub open spec fn scored(rows: Seq<MemoryRow<Seq<char>>>, question: Seq<char>) -> Seq<
    Scored<Seq<char>>,
>
    decreases rows.len(),
{
    if rows.len() == 0 {
        Seq::empty()
    } else {
        let before = scored(rows.drop_last(), question);
        let score = relevance(rows.last(), question);
        if score > 0 {
            before.push(Scored { score: score as i128, row: rows.last() })
        } else {
            before
        }
    }
}

/// The best first.
pub open spec fn score_order() -> spec_fn(Scored<Seq<char>>, Scored<Seq<char>>) -> bool {
    |a: Scored<Seq<char>>, b: Scored<Seq<char>>| a.score >= b.score
}

/// The memories that have most to do with a question, the best first.
pub open spec fn best_scored(
    rows: Seq<MemoryRow<Seq<char>>>,
    question: Seq<char>,
    limit: int,
) -> Seq<MemoryRow<Seq<char>>> {
    let all = limited(
        sorted(
            scored(rows, question),
            score_order(),
        ),
        if limit < 0 {
            0
        } else {
            limit
        },
    );
    Seq::new(all.len(), |i: int| all[i].row)
}

/// One of the memories has this identifier.
pub open spec fn has_id(rows: Seq<MemoryRow<Seq<char>>>, id: Seq<char>) -> bool {
    exists|i: int| 0 <= i < rows.len() && (#[trigger] rows[i]).id == id
}

/// A memory that came to mind at `now`.
pub open spec fn used(m: MemoryRow<Seq<char>>, now: Seq<char>) -> MemoryRow<Seq<char>> {
    MemoryRow {
        last_used_at: now,
        updated_at: now,
        importance: raised(m.importance as int) as i64,
        ..m
    }
}

/// The memory has the identifier of one of the memories.
pub open spec fn is_one_of(rows: Seq<MemoryRow<Seq<char>>>) -> spec_fn(
    MemoryRow<Seq<char>>,
) -> bool {
    |m: MemoryRow<Seq<char>>| has_id(rows, m.id)
}

/// A memory that came to mind at `now`.
pub open spec fn used_at(now: Seq<char>) -> spec_fn(MemoryRow<Seq<char>>) -> MemoryRow<Seq<char>> {
    |m: MemoryRow<Seq<char>>| used(m, now)
}

impl Tables {
    /// The memories that come to mind with a question.
    pub open spec fn recalled(
        self,
        query: Seq<char>,
        conversation_id: Option<Seq<char>>,
        limit: int,
    ) -> Seq<MemoryRow<Seq<char>>> {
        if trimmed(query).len() == 0 {
            Seq::empty()
        } else {
            best_scored(
                self.memories_for(filled(conversation_id), SEARCH_SCAN_LIMIT as int),
                trimmed(query),
                limit,
            )
        }
    }

    /// What is shown of memories that come to mind at `now`.
    pub open spec fn shown_used(self, rows: Seq<MemoryRow<Seq<char>>>, now: Seq<char>) -> Seq<
        Memory<Seq<char>>,
    > {
        Seq::new(rows.len(), |i: int| self.shown(used(rows[i], now)))
    }

    /// What is stored after these memories came to mind at `now`.
    pub open spec fn after_use(self, rows: Seq<MemoryRow<Seq<char>>>, now: Seq<char>) -> Tables {
        Tables {
            memories: changed(
                self.memories,
                is_one_of(rows),
                used_at(now),
            ),
            ..self
        }
    }
}

/// How much a memory has to do with a question, given the form without noise
/// of the question.
fn rate_relevance(m: &MemoryRow, question: &str, norm: &str) -> (r: i128)
    requires
        norm@ == matchable(question@),
    ensures
        r == relevance(m@, question@),
{
    let mut score: i128 = rate_likeness(m, question, norm) as i128 + m.importance as i128;
    if text_eq(&m.scope, "conversation") {
        score = score + 2;
    }
    if char_count(&m.content) > 160 {
        score = score + 1;
    }
    score
}

/// The memories that have most to do with a question, the best first.
pub fn rank_memories(rows: &Vec<MemoryRow>, question: &str, limit: i64) -> (r: Vec<MemoryRow>)
    ensures
        views(r@) == best_scored(views(rows@), question@, limit as int),
{
    let norm = normalize_for_match(question);
    let ghost all = views(rows@);
    let mut hits: Vec<Scored> = Vec::new();
    assert(views(hits@) =~= Seq::empty());
    for i in 0..rows.len()
        invariant
            all == views(rows@),
            norm@ == matchable(question@),
            views(hits@) == scored(all.take(i as int), question@),
    {
        assert(all.take(i + 1).drop_last() =~= all.take(i as int));
        let score: i128 = rate_relevance(&rows[i], question, &norm);
        if score > 0 {
            let x = Scored { score, row: rows[i].clone() };
            let ghost next = views(hits@).push(x@);
            hits.push(x);
            assert(views(hits@) =~= next);
        }
    }
    assert(all.take(all.len() as int) =~= all);
    let mut ranked = stable_sort(
        hits,
        |a: &Scored, b: &Scored| -> (r: bool)
            ensures
                r == (a@.score >= b@.score)
            { a.score >= b.score },
        Ghost(score_order()),
    );
    let max: i64 = if limit < 0 {
        0
    } else {
        limit
    };
    limit_rows(&mut ranked, max);
    let mut out: Vec<MemoryRow> = Vec::new();
    let ghost best = best_scored(all, question@, limit as int);
    for i in 0..ranked.len()
        invariant
            views(ranked@).len() == best.len(),
            forall|k: int| 0 <= k < best.len() ==> best[k] == (#[trigger] views(ranked@)[k]).row,
            views(out@) == best.take(i as int),
    {
        let x = ranked[i].row.clone();
        assert(views(ranked@)[i as int].row == x@);
        let ghost next = views(out@).push(x@);
        out.push(x);
        assert(views(out@) =~= next);
        assert(best.take(i + 1) =~= next);
    }
    assert(best.take(best.len() as int) =~= best);
    out
}

/// One of the memories has this identifier.
fn contains_id(rows: &Vec<MemoryRow>, id: &str) -> (r: bool)
    ensures
        r == has_id(views(rows@), id@),
{
    for i in 0..rows.len()
        invariant
            forall|k: int| 0 <= k < i ==> (#[trigger] views(rows@)[k]).id != id@,
    {
        if text_eq(&rows[i].id, id) {
            assert(views(rows@)[i as int].id == id@);
            return true;
        }
    }
    false
}

/// A memory that came to mind at `now`.
fn mark_used(m: &MemoryRow, now: &str) -> (r: MemoryRow)
    ensures
        r@ == used(m@, now@),
{
    let mut u = m.clone();
    u.last_used_at = now.to_owned();
    u.updated_at = now.to_owned();
    u.importance = if m.importance >= 10 {
        10
    } else {
        m.importance + 1
    };
    u
}

impl Database {
    /// A memory as it is shown, with what is left of its source.
    pub fn show_memory(&self, m: &MemoryRow) -> (r: Memory)
        ensures
            r@ == self@.shown(m@),
    {
        let (title, conversation_gone) = match &m.source_conversation_id {
            Some(id) => match self.find_conversation(id) {
                Some(i) => (Some(self.conversations[i].title.clone()), false),
                None => (None, filled_text(Some(id.as_str())).is_some()),
            },
            None => (None, false),
        };
        let (preview, message_gone) = match &m.source_message_id {
            Some(id) => {
                let named = filled_text(Some(id.as_str())).is_some();
                match self.find_message(id) {
                    Some(i) => {
                        let msg = &self.messages[i];
                        let gone = filled_text(opt_ref(&msg.deleted_at)).is_some();
                        let start = clip_chars(&text_before_nul(&msg.content), 200);
                        (Some(start), named && gone)
                    },
                    None => (None, named),
                }
            },
            None => (None, false),
        };
        Memory {
            id: m.id.clone(),
            content: m.content.clone(),
            importance: m.importance,
            created_at: m.created_at.clone(),
            updated_at: m.updated_at.clone(),
            last_used_at: m.last_used_at.clone(),
            scope: m.scope.clone(),
            conversation_id: copy_opt(&m.conversation_id),
            source_message_id: copy_opt(&m.source_message_id),
            source_conversation_id: copy_opt(&m.source_conversation_id),
            source_conversation_title: title,
            source_message_preview: preview,
            source_conversation_deleted: conversation_gone,
            source_message_deleted: message_gone,
        }
    }

    /// Memories as they are shown.
    fn show_memories(&self, rows: &Vec<MemoryRow>) -> (r: Vec<Memory>)
        ensures
            views(r@) == self@.all_shown(views(rows@)),
    {
        let mut out: Vec<Memory> = Vec::new();
        let ghost all = self@.all_shown(views(rows@));
        for i in 0..rows.len()
            invariant
                all == self@.all_shown(views(rows@)),
                views(out@) == all.take(i as int),
        {
            let x = self.show_memory(&rows[i]);
            let ghost next = views(out@).push(x@);
            out.push(x);
            assert(views(out@) =~= next);
            assert(all.take(i + 1) =~= next);
        }
        assert(all.take(all.len() as int) =~= all);
        out
    }

    /// The memory is for every conversation, or for one that exists.
    fn memory_is_live(&self, m: &MemoryRow) -> (r: bool)
        ensures
            r == self@.is_live(m@),
    {
        text_eq(&m.scope, "global") || (text_eq(&m.scope, "conversation")
            && match &m.conversation_id {
            Some(id) => self.find_conversation(id).is_some(),
            None => false,
        })
    }

    /// The memory is for every conversation, or for this one.
    fn memory_is_for(&self, m: &MemoryRow, conversation_id: &Option<String>) -> (r: bool)
        ensures
            r == self@.is_for(m@, opt_text(*conversation_id)),
    {
        text_eq(&m.scope, "global") || (text_eq(&m.scope, "conversation") && match (
            &m.conversation_id,
            conversation_id,
        ) {
            (Some(a), Some(b)) => text_eq(a, b) && self.find_conversation(b).is_some(),
            _ => false,
        })
    }

    /// The memories for a conversation, the weightiest first.
    fn rows_for(&self, conversation_id: &Option<String>, limit: i64) -> (r: Vec<MemoryRow>)
        ensures
            views(r@) == self@.memories_for(opt_text(*conversation_id), limit as int),
    {
        let ghost conv = opt_text(*conversation_id);
        let near = select(
            &self.memories,
            |m: &MemoryRow| -> (r: bool)
                ensures
                    r == self@.is_for(m@, conv)
                { self.memory_is_for(m, conversation_id) },
            Ghost(self@.meant_for(conv)),
        );
        let mut near = stable_sort(
            near,
            |a: &MemoryRow, b: &MemoryRow| -> (r: bool)
                ensures
                    r == memory_before(a@, b@)
                { precedes(a, b) },
            Ghost(weight_order()),
        );
        limit_rows(&mut near, limit);
        near
    }

    /// The memories for every conversation and for those that exist, the
    /// weightiest first; all of them where `limit` is negative.
    pub fn list_memories(&self, limit: i64) -> (r: Vec<Memory>)
        ensures
            views(r@) == self@.all_shown(self@.live_memories(limit as int)),
    {
        let live = select(
            &self.memories,
            |m: &MemoryRow| -> (r: bool)
                ensures
                    r == self@.is_live(m@)
                { self.memory_is_live(m) },
            Ghost(self@.live()),
        );
        let mut live = stable_sort(
            live,
            |a: &MemoryRow, b: &MemoryRow| -> (r: bool)
                ensures
                    r == memory_before(a@, b@)
                { precedes(a, b) },
            Ghost(weight_order()),
        );
        limit_rows(&mut live, limit);
        self.show_memories(&live)
    }

    /// The memories for a conversation, the weightiest first; all live ones
    /// where the conversation is not named.
    pub fn list_memories_for_conversation(&self, conversation_id: &str, limit: i64) -> (r: Vec<
        Memory,
    >)
        ensures
            views(r@) == self@.memory_page(conversation_id@, limit as int),
    {
        let id = trim(conversation_id);
        if id.as_str().is_empty() {
            return self.list_memories(limit);
        }
        let rows = self.rows_for(&Some(id), limit);
        self.show_memories(&rows)
    }

    /// The memories that come to mind with a question at `now`; each becomes a
    /// step more important.
    pub fn search_memories_at(
        &mut self,
        query: &str,
        conversation_id: Option<&str>,
        limit: i64,
        now: &str,
    ) -> (r: Vec<Memory>)
        ensures
            ({
                let hits = old(self)@.recalled(query@, opt_str(conversation_id), limit as int);
                &&& views(r@) == old(self)@.shown_used(hits, now@)
                &&& final(self)@ == old(self)@.after_use(hits, now@)
            }),
    {
        let ghost before = self@;
        let ghost hits = self@.recalled(query@, opt_str(conversation_id), limit as int);
        let q = trim(query);
        if q.as_str().is_empty() {
            let out: Vec<Memory> = Vec::new();
            assert(views(out@) =~= self@.shown_used(hits, now@));
            assert(self@.after_use(hits, now@).memories =~= self@.memories);
            return out;
        }
        let conv = filled_text(conversation_id);
        let rows = self.rows_for(&conv, SEARCH_SCAN_LIMIT);
        let found = rank_memories(&rows, &q, limit);
        assert(views(found@) == hits);
        let mut out: Vec<Memory> = Vec::new();
        let ghost all = self@.shown_used(hits, now@);
        for i in 0..found.len()
            invariant
                self@ == before,
                hits == views(found@),
                all == before.shown_used(hits, now@),
                views(out@) == all.take(i as int),
        {
            let x = self.show_memory(&mark_used(&found[i], now));
            let ghost next = views(out@).push(x@);
            out.push(x);
            assert(views(out@) =~= next);
            assert(all.take(i + 1) =~= next);
        }
        assert(all.take(all.len() as int) =~= all);
        change_rows(
            &mut self.memories,
            |m: &MemoryRow| -> (r: bool)
                ensures
                    r == has_id(hits, m@.id)
                { contains_id(&found, &m.id) },
            |m: &MemoryRow| -> (r: MemoryRow)
                ensures
                    r@ == used(m@, now@)
                { mark_used(m, now) },
            Ghost(is_one_of(hits)),
            Ghost(used_at(now@)),
        );
        out
    }

    /// The memories that come to mind with a question; each becomes a step more
    /// important.
    pub fn search_memories(&mut self, query: &str, conversation_id: Option<&str>, limit: i64) -> (r:
        Vec<Memory>)
        ensures
            exists|now: Seq<char>|
                is_time_text(now) && views(r@) == #[trigger] old(self)@.shown_used(
                    old(self)@.recalled(query@, opt_str(conversation_id), limit as int),
                    now,
                ) && final(self)@ == old(self)@.after_use(
                    old(self)@.recalled(query@, opt_str(conversation_id), limit as int),
                    now,
                ),
    {
        let now = now_iso();
        self.search_memories_at(query, conversation_id, limit, &now)
    }
}

// ---------------------------------------------------------------------------
// Laws
// ---------------------------------------------------------------------------

pub proof fn lemma_scored(rows: Seq<MemoryRow<Seq<char>>>, question: Seq<char>, i: int) -> (j: int)
    requires
        0 <= i < scored(rows, question).len(),
    ensures
        0 <= j < rows.len(),
        scored(rows, question)[i].row == rows[j],
        scored(rows, question)[i].score == relevance(rows[j], question),
        relevance(rows[j], question) > 0,
    decreases rows.len(),
{
    let before = scored(rows.drop_last(), question);
    if i < before.len() {
        lemma_scored(rows.drop_last(), question, i)
    } else {
        lemma_relevance_fits(rows.last(), question);
        rows.len() - 1
    }
}

proof fn lemma_relevance_fits(m: MemoryRow<Seq<char>>, question: Seq<char>)
    ensures
        i128::MIN <= relevance(m, question) <= i128::MAX,
{
}

/// What comes to mind is one of the memories, has to do with the question, and
/// is for every conversation or for this one.
pub proof fn law_recalled_are_meant(
    t: Tables,
    query: Seq<char>,
    conversation_id: Option<Seq<char>>,
    limit: int,
    i: int,
)
    requires
        0 <= i < t.recalled(query, conversation_id, limit).len(),
    ensures
        ({
            let m = t.recalled(query, conversation_id, limit)[i];
            &&& t.memories.contains(m)
            &&& t.is_for(m, filled(conversation_id))
            &&& relevance(m, trimmed(query)) > 0
        }),
{
    let near = t.memories_for(filled(conversation_id), SEARCH_SCAN_LIMIT as int);
    let all = scored(near, trimmed(query));
    law_sorted(all, score_order());
    let k = lemma_sorted_from(all, score_order(), i);
    let j = lemma_scored(near, trimmed(query), k);
    lemma_memories_for(t, filled(conversation_id), SEARCH_SCAN_LIMIT as int, j);
}

proof fn lemma_memories_for(
    t: Tables,
    conversation_id: Option<Seq<char>>,
    limit: int,
    j: int,
)
    requires
        0 <= j < t.memories_for(conversation_id, limit).len(),
    ensures
        t.memories.contains(t.memories_for(conversation_id, limit)[j]),
        t.is_for(t.memories_for(conversation_id, limit)[j], conversation_id),
{
    let p = t.meant_for(conversation_id);
    let kept = t.memories.filter(p);
    law_sorted(kept, weight_order());
    let a = lemma_sorted_from(kept, weight_order(), j);
    let b = lemma_filter_member(t.memories, p, a);
    assert(t.memories[b] == t.memories_for(conversation_id, limit)[j]);
}

/// No more comes to mind than was asked for.
pub proof fn law_recalled_are_few(
    t: Tables,
    query: Seq<char>,
    conversation_id: Option<Seq<char>>,
    limit: int,
)
    ensures
        t.recalled(query, conversation_id, limit).len() <= (if limit < 0 {
            0
        } else {
            limit
        }),
{
    let near = t.memories_for(filled(conversation_id), SEARCH_SCAN_LIMIT as int);
    law_sorted(scored(near, trimmed(query)), score_order());
}

/// A memory of one conversation does not come to mind in another.
pub proof fn law_memories_stay_in_their_conversation(
    t: Tables,
    query: Seq<char>,
    conversation_id: Option<Seq<char>>,
    limit: int,
    i: int,
)
    requires
        0 <= i < t.recalled(query, conversation_id, limit).len(),
        t.recalled(query, conversation_id, limit)[i].scope != "global"@,
    ensures
        ({
            let m = t.recalled(query, conversation_id, limit)[i];
            m.conversation_id is Some && m.conversation_id == filled(conversation_id)
        }),
{
    law_recalled_are_meant(t, query, conversation_id, limit, i);
}

/// When a conversation was deleted, all memories are kept, those for every
/// conversation come to mind as before, and those of the deleted conversation
/// come to mind nowhere.
pub proof fn law_deleted_conversation_is_not_recalled(
    t: Tables,
    id: Seq<char>,
    query: Seq<char>,
    conversation_id: Option<Seq<char>>,
    limit: int,
    i: int,
)
    requires
        t.sound(),
        0 <= i < t.without_conversation(id).recalled(query, conversation_id, limit).len(),
    ensures
        ({
            let u = t.without_conversation(id);
            let m = u.recalled(query, conversation_id, limit)[i];
            &&& u.memories == t.memories
            &&& m.scope == "global"@ || m.conversation_id != Some(id)
        }),
{
    let u = t.without_conversation(id);
    law_sound_without_conversation(t, id);
    law_recalled_are_meant(u, query, conversation_id, limit, i);
}

/// A memory that came to mind is a step more important and was used now; all
/// others are as they were.
pub proof fn law_use_raises(t: Tables, rows: Seq<MemoryRow<Seq<char>>>, now: Seq<char>, i: int)
    requires
        0 <= i < t.memories.len(),
    ensures
        t.after_use(rows, now).memories[i] == (if has_id(rows, t.memories[i].id) {
            used(t.memories[i], now)
        } else {
            t.memories[i]
        }),
        used(t.memories[i], now).last_used_at == now,
        t.memories[i].importance < 10 ==> used(t.memories[i], now).importance
            == t.memories[i].importance + 1,
{
}

/// Deleting a conversation does not change what another conversation holds and
/// what comes to mind there.
pub proof fn law_other_conversations_stay(
    t: Tables,
    id: Seq<char>,
    other: Seq<char>,
    query: Seq<char>,
    limit: int,
)
    requires
        t.sound(),
        other != id,
        trimmed(other) != id,
    ensures
        ({
            let u = t.without_conversation(id);
            &&& u.conversation(other) == t.conversation(other)
            &&& u.timeline(other) == t.timeline(other)
            &&& u.summaries_of(other) == t.summaries_of(other)
            &&& u.files_of(other, limit) == t.files_of(other, limit)
            &&& u.recalled(query, Some(other), limit) == t.recalled(query, Some(other), limit)
        }),
{
    let u = t.without_conversation(id);
    law_sound_without_conversation(t, id);
    if t.has_conversation(id) {
        lemma_filtered_twice(
            t.messages,
            message_elsewhere(id),
            crate::db::messages::is_kept_in(other),
        );
        lemma_filtered_twice(
            t.summaries,
            summary_elsewhere(id),
            crate::db::summaries::is_summary_of(other),
        );
        lemma_filtered_twice(
            t.files,
            file_elsewhere(id),
            crate::db::attachments::is_kept_file_in(trimmed(other)),
        );
        lemma_first_left(t.conversations, id, other);
    }
    let mine = filled(Some(other));
    assert forall|m: MemoryRow<Seq<char>>| #[trigger] u.is_for(m, mine) == t.is_for(m, mine) by {
        match mine {
            Some(k) => {
                assert(u.has_conversation(k) == t.has_conversation(k));
            },
            None => {},
        }
    }
    lemma_filtered_same(t.memories, u.meant_for(mine), t.meant_for(mine));
}

/// Picking twice is picking by the narrower of two conditions.
proof fn lemma_filtered_twice<A>(s: Seq<A>, wide: spec_fn(A) -> bool, narrow: spec_fn(A) -> bool)
    requires
        forall|x: A| #[trigger] narrow(x) ==> wide(x),
    ensures
        s.filter(wide).filter(narrow) == s.filter(narrow),
    decreases s.len(),
{
    reveal(Seq::filter);
    if s.len() > 0 {
        lemma_filtered_twice(s.drop_last(), wide, narrow);
        let before = s.drop_last().filter(wide);
        if wide(s.last()) {
            assert(before.push(s.last()).drop_last() =~= before);
        }
    }
}

/// Conditions that agree pick the same.
proof fn lemma_filtered_same<A>(s: Seq<A>, p: spec_fn(A) -> bool, q: spec_fn(A) -> bool)
    requires
        forall|x: A| #[trigger] p(x) == q(x),
    ensures
        s.filter(p) == s.filter(q),
    decreases s.len(),
{
    reveal(Seq::filter);
    if s.len() > 0 {
        lemma_filtered_same(s.drop_last(), p, q);
        assert(p(s.last()) == q(s.last()));
    }
}

/// A conversation is found among those that are left.
proof fn lemma_first_left(
    rows: Seq<ConversationRow<Seq<char>>>,
    id: Seq<char>,
    other: Seq<char>,
)
    requires
        other != id,
    ensures
        first_row(rows.filter(is_other_conversation(id)), is_conversation(other)) == first_row(
            rows,
            is_conversation(other),
        ),
    decreases rows.len(),
{
    reveal(Seq::filter);
    if rows.len() > 0 {
        let front = rows.drop_last();
        lemma_first_left(front, id, other);
        let left = front.filter(is_other_conversation(id));
        lemma_first_where(front, is_conversation(other));
        lemma_first_where(left, is_conversation(other));
        if is_other_conversation(id)(rows.last()) {
            assert(left.push(rows.last()).drop_last() =~= left);
        }
    }
}

/// What has most to do with a question comes first to mind.
pub proof fn law_best_comes_first(
    t: Tables,
    query: Seq<char>,
    conversation_id: Option<Seq<char>>,
    limit: int,
    i: int,
    j: int,
)
    requires
        0 <= i <= j < t.recalled(query, conversation_id, limit).len(),
    ensures
        ({
            let found = t.recalled(query, conversation_id, limit);
            relevance(found[i], trimmed(query)) >= relevance(found[j], trimmed(query))
        }),
{
    let near = t.memories_for(filled(conversation_id), SEARCH_SCAN_LIMIT as int);
    let all = scored(near, trimmed(query));
    let le = score_order();
    assert(is_order(le));
    law_sorted(all, le);
    let a = lemma_sorted_from(all, le, i);
    let b = lemma_sorted_from(all, le, j);
    lemma_scored(near, trimmed(query), a);
    lemma_scored(near, trimmed(query), b);
    assert(le(sorted(all, le)[i], sorted(all, le)[j]));
}

/// Memories are listed by importance, and among equals those used last first.
pub proof fn law_weightiest_come_first(
    t: Tables,
    conversation_id: Option<Seq<char>>,
    limit: int,
    i: int,
    j: int,
)
    requires
        0 <= i <= j,
    ensures
        j < t.live_memories(limit).len() ==> memory_before(
            t.live_memories(limit)[i],
            t.live_memories(limit)[j],
        ),
        j < t.memories_for(conversation_id, limit).len() ==> memory_before(
            t.memories_for(conversation_id, limit)[i],
            t.memories_for(conversation_id, limit)[j],
        ),
{
    let le = weight_order();
    assert forall|a: MemoryRow<Seq<char>>, b: MemoryRow<Seq<char>>| #[trigger] le(a, b) || le(
        b,
        a,
    ) by {
        law_text_order_total(a.last_used_at, b.last_used_at);
    }
    assert forall|
        a: MemoryRow<Seq<char>>,
        b: MemoryRow<Seq<char>>,
        c: MemoryRow<Seq<char>>,
    | #[trigger] le(a, b) && #[trigger] le(b, c) implies le(a, c) by {
        if a.importance == b.importance && b.importance == c.importance {
            law_text_order_transitive(c.last_used_at, b.last_used_at, a.last_used_at);
        }
    }
    let live = t.memories.filter(t.live());
    law_sorted(live, le);
    if j < t.live_memories(limit).len() {
        assert(le(sorted(live, le)[i], sorted(live, le)[j]));
    }
    let mine = t.memories.filter(t.meant_for(conversation_id));
    law_sorted(mine, le);
    if j < t.memories_for(conversation_id, limit).len() {
        assert(le(sorted(mine, le)[i], sorted(mine, le)[j]));
    }
}

} // verus!
