//! What comes to mind, what is kept of notes, and how memories fade and move.
use vstd::prelude::*;
use crate::db::memories::{
    alike, best_match, lemma_alike, likeness, merged_row, noted, says_same, weight_order,
    Note,
};
use crate::db::order_laws::{lemma_sorted_from, lemma_sorted_has};
use crate::db::recall::{
    best_scored, lemma_scored, relevance, score_order, scored, SEARCH_SCAN_LIMIT,
};
use crate::db::soundness::{distinct, lemma_filter_keeps, memory_key};
use crate::db::upkeep::{all_faded, faded, is_faint, unspaced};
use crate::db::{is_memory, DbError, Tables};
use crate::memory::{matchable, merged_content};
use crate::memory_laws::{
    law_merging_loses_nothing, law_overlap, lemma_part_of_self, lemma_shared, shared_places,
};
use crate::models::MemoryRow;
use crate::sorting::{is_order, law_sorted, sorted};
use crate::table::{first_where, lemma_first_where};
use crate::text::{before_nul, has_part, trimmed};

verus! {

// ---------------------------------------------------------------------------
// Coming to mind
// ---------------------------------------------------------------------------

/// How many points two texts without noise give: twelve where one is a part of
/// the other, else one for each character of the first that also stands in the
/// second, up to ten.
pub open spec fn gives(a: Seq<char>, b: Seq<char>, points: int) -> bool {
    &&& a.len() == 0 || b.len() == 0 ==> points == 0
    &&& a.len() > 0 && b.len() > 0 && (has_part(a, b) || has_part(b, a)) ==> points == 12
    &&& a.len() > 0 && b.len() > 0 && !has_part(a, b) && !has_part(b, a) ==> {
        &&& shared_places(a, b).len() <= 10 ==> points == shared_places(a, b).len()
        &&& shared_places(a, b).len() > 10 ==> points == 10
    }
}

/// The score of a memory is its importance, and what the question shares with
/// its text and with its form without noise, and two more where it belongs to
/// the conversation, and one more where it is long.
pub proof fn law_relevance(m: MemoryRow<Seq<char>>, question: Seq<char>) -> (points: (int, int))
    ensures
        gives(matchable(question), matchable(m.content), points.0),
        gives(matchable(matchable(question)), matchable(m.normalized_content), points.1),
        relevance(m, question) == points.0 + points.1 + m.importance + (if m.scope
            == "conversation"@ {
            2int
        } else {
            0
        }) + (if m.content.len() > 160 {
            1int
        } else {
            0
        }),
{
    law_overlap(matchable(question), matchable(m.content));
    law_overlap(matchable(matchable(question)), matchable(m.normalized_content));
    (
        crate::memory::overlap(matchable(question), matchable(m.content)),
        crate::memory::overlap(
            matchable(matchable(question)),
            matchable(m.normalized_content),
        ),
    )
}

/// The question and the text share some characters, but neither holds the other.
pub open spec fn differ(a: Seq<char>, b: Seq<char>) -> bool {
    a.len() > 0 && b.len() > 0 && !has_part(a, b) && !has_part(b, a)
}

/// Of two memories alike in importance, scope and length the one that shares
/// more characters with the question scores higher.
pub proof fn law_sharing_more_scores_higher(
    m: MemoryRow<Seq<char>>,
    n: MemoryRow<Seq<char>>,
    question: Seq<char>,
)
    requires
        m.importance == n.importance,
        m.scope == n.scope,
        (m.content.len() > 160) == (n.content.len() > 160),
        differ(matchable(question), matchable(m.content)),
        differ(matchable(question), matchable(n.content)),
        differ(matchable(matchable(question)), matchable(m.normalized_content)),
        differ(matchable(matchable(question)), matchable(n.normalized_content)),
        shared_places(matchable(question), matchable(m.content)).len() > shared_places(
            matchable(question),
            matchable(n.content),
        ).len(),
        shared_places(matchable(question), matchable(n.content)).len() < 10,
        shared_places(
            matchable(matchable(question)),
            matchable(m.normalized_content),
        ).len() >= shared_places(
            matchable(matchable(question)),
            matchable(n.normalized_content),
        ).len(),
    ensures
        relevance(m, question) > relevance(n, question),
{
    let a = law_relevance(m, question);
    let b = law_relevance(n, question);
}

/// A memory that is for every conversation or for this one, and has any score,
/// is left out only where as many came to mind as were asked for, each with at
/// least its score.
pub proof fn law_nothing_better_is_left_out(
    t: Tables,
    query: Seq<char>,
    conversation_id: Seq<char>,
    limit: int,
    i: int,
)
    requires
        0 <= i < t.memories.len() <= 800,
        trimmed(query).len() > 0,
        trimmed(conversation_id) == conversation_id,
        conversation_id.len() > 0,
        t.memories[i].scope == "global"@ || (t.memories[i].scope == "conversation"@
            && t.memories[i].conversation_id == Some(conversation_id) && t.has_conversation(
            conversation_id,
        )),
        t.memories[i].importance > 0,
        limit >= 0,
    ensures
        ({
            let found = t.recalled(query, Some(conversation_id), limit);
            &&& found.len() <= limit
            &&& found.contains(t.memories[i]) || (found.len() == limit && forall|k: int|
                0 <= k < found.len() ==> relevance(#[trigger] found[k], trimmed(query))
                    >= relevance(t.memories[i], trimmed(query)))
        }),
{
    let m = t.memories[i];
    let q = trimmed(query);
    let p = t.meant_for(Some(conversation_id));
    let kept = t.memories.filter(p);
    lemma_filter_len(t.memories, p);
    let j = lemma_filter_keeps(t.memories, p, i);
    law_sorted(kept, weight_order());
    let near = t.memories_for(Some(conversation_id), SEARCH_SCAN_LIMIT as int);
    assert(near == sorted(kept, weight_order()));
    let a = lemma_sorted_has(kept, weight_order(), j);
    assert(near[a] == m);
    let points = law_relevance(m, q);
    lemma_shared(matchable(q), matchable(m.content));
    lemma_shared(matchable(matchable(q)), matchable(m.normalized_content));
    assert(relevance(m, q) > 0);
    let all = scored(near, q);
    let b = lemma_scored_has(near, q, a);
    let le = score_order();
    assert(is_order(le));
    law_sorted(all, le);
    let c = lemma_sorted_has(all, le, b);
    let found = t.recalled(query, Some(conversation_id), limit);
    assert(found == best_scored(near, q, limit));
    if c < limit {
        assert(found[c] == m);
    } else {
        assert forall|k: int| 0 <= k < found.len() implies relevance(#[trigger] found[k], q)
            >= relevance(m, q) by {
            let d = lemma_sorted_from(all, le, k);
            let e = lemma_scored(near, q, d);
            assert(le(sorted(all, le)[k], sorted(all, le)[c]));
            assert(found[k] == sorted(all, le)[k].row);
        }
    }
}

proof fn lemma_filter_len<A>(s: Seq<A>, p: spec_fn(A) -> bool)
    ensures
        s.filter(p).len() <= s.len(),
    decreases s.len(),
{
    reveal(Seq::filter);
    if s.len() > 0 {
        lemma_filter_len(s.drop_last(), p);
    }
}

/// A memory with any score is among the scored ones.
proof fn lemma_scored_has(rows: Seq<MemoryRow<Seq<char>>>, question: Seq<char>, j: int) -> (i: int)
    requires
        0 <= j < rows.len(),
        relevance(rows[j], question) > 0,
        relevance(rows[j], question) <= i128::MAX,
    ensures
        0 <= i < scored(rows, question).len(),
        scored(rows, question)[i].row == rows[j],
        scored(rows, question)[i].score == relevance(rows[j], question),
    decreases rows.len(),
{
    let front = rows.drop_last();
    if j < front.len() {
        let i = lemma_scored_has(front, question, j);
        assert(scored(rows, question)[i] == scored(front, question)[i]);
        i
    } else {
        scored(rows, question).len() - 1
    }
}

/// Memories that came to mind are a step more important, up to ten, and were
/// used now; nothing else of them changes, and no other memory does.
pub proof fn law_coming_to_mind(
    t: Tables,
    rows: Seq<MemoryRow<Seq<char>>>,
    now: Seq<char>,
    i: int,
)
    requires
        0 <= i < t.memories.len(),
    ensures
        ({
            let m = t.memories[i];
            let after = t.after_use(rows, now);
            let n = after.memories[i];
            &&& after.memories.len() == t.memories.len()
            &&& (exists|k: int| 0 <= k < rows.len() && (#[trigger] rows[k]).id == m.id) ==> n == (
            MemoryRow {
                importance: if m.importance >= 10 {
                    10
                } else {
                    (m.importance + 1) as i64
                },
                last_used_at: now,
                updated_at: now,
                ..m
            })
            &&& !(exists|k: int| 0 <= k < rows.len() && (#[trigger] rows[k]).id == m.id) ==> n == m
            &&& after == (Tables { memories: after.memories, ..t })
        }),
{
}

/// What is shown of a memory is what is stored of it; its source is named where
/// it is still there, and said to be deleted where it is not.
pub proof fn law_memories_are_shown(t: Tables, m: MemoryRow<Seq<char>>)
    ensures
        ({
            let s = t.shown(m);
            &&& s.id == m.id
            &&& s.content == m.content
            &&& s.importance == m.importance
            &&& s.scope == m.scope
            &&& s.conversation_id == m.conversation_id
            &&& s.created_at == m.created_at
            &&& s.updated_at == m.updated_at
            &&& s.last_used_at == m.last_used_at
            &&& s.source_message_id == m.source_message_id
            &&& s.source_conversation_id == m.source_conversation_id
            &&& m.source_conversation_id is None ==> s.source_conversation_title is None
                && !s.source_conversation_deleted
            &&& m.source_conversation_id matches Some(id) ==> {
                &&& t.conversation(id) matches Some(c) ==> s.source_conversation_title == Some(
                    c.title,
                ) && !s.source_conversation_deleted
                &&& t.conversation(id) is None && trimmed(id).len() > 0
                    ==> s.source_conversation_deleted
            }
            &&& m.source_message_id is None ==> s.source_message_preview is None
                && !s.source_message_deleted
            &&& m.source_message_id matches Some(id) ==> {
                &&& t.any_message(id) is None && trimmed(id).len() > 0 ==> s.source_message_deleted
                &&& t.any_message(id) matches Some(x) ==> s.source_message_preview is Some
                    && (before_nul(x.content).len() <= 200 ==> s.source_message_preview == Some(
                    before_nul(x.content),
                ))
            }
        }),
{
}

/// A memory of no importance above another's is not listed before it.
pub proof fn law_important_memories_are_listed_first(
    t: Tables,
    conversation_id: Option<Seq<char>>,
    limit: int,
    i: int,
    j: int,
)
    requires
        0 <= i <= j,
    ensures
        j < t.live_memories(limit).len() ==> t.live_memories(limit)[i].importance
            >= t.live_memories(limit)[j].importance,
        j < t.memories_for(conversation_id, limit).len() ==> t.memories_for(
            conversation_id,
            limit,
        )[i].importance >= t.memories_for(conversation_id, limit)[j].importance,
{
    crate::db::recall::law_weightiest_come_first(t, conversation_id, limit, i, j);
}

// ---------------------------------------------------------------------------
// Taking notes
// ---------------------------------------------------------------------------

/// A note is kept: after it was taken there is a memory in its scope that holds
/// its text, as long as both fit together. At most one memory is added, and
/// with an identifier of its own.
pub proof fn law_notes_are_kept(
    rows: Seq<MemoryRow<Seq<char>>>,
    note: Note<Seq<char>>,
    id: Seq<char>,
    now: Seq<char>,
)
    requires
        distinct(rows, memory_key()),
        trimmed(note.text) == note.text,
        forall|i: int|
            0 <= i < rows.len() ==> trimmed((#[trigger] rows[i]).content).len() + note.text.len()
                < 400,
    ensures
        match noted(rows, note, id, now) {
            Ok(after) => {
                &&& rows.len() <= after.len() <= rows.len() + 1
                &&& exists|k: int|
                    0 <= k < after.len() && (#[trigger] after[k]).scope == note.scope
                        && after[k].conversation_id == note.conversation_id && has_part(
                        after[k].content,
                        note.text,
                    ) && after[k].updated_at == now && after[k].last_used_at == now
                &&& after.len() > rows.len() ==> after.last().id == id && after.last().content
                    == note.text && after.last().importance == note.importance && after.drop_last()
                    == rows
            },
            Err(e) => e == DbError::MemoryExists,
        },
{
    lemma_part_of_self(note.text);
    let same = first_where(rows, says_same(note));
    lemma_first_where(rows, says_same(note));
    match same {
        Some(i) => {
            law_merging_loses_nothing(rows[i].content, note.text);
            let after = noted(rows, note, id, now)->Ok_0;
            assert(after[i] == merged_row(rows[i], note, note.norm, now));
        },
        None => {
            match alike(rows, note) {
                Some(b) => {
                    let j = lemma_alike(rows, note);
                    law_merging_loses_nothing(b.content, note.text);
                    lemma_first_where(rows, is_memory(b.id));
                    assert(is_memory(b.id)(rows[j]));
                    let i = first_where(rows, is_memory(b.id))->0;
                    if i < j {
                        assert(memory_key()(rows[i]) != memory_key()(rows[j]));
                    } else if j < i {
                        assert(memory_key()(rows[j]) != memory_key()(rows[i]));
                    }
                    let after = noted(rows, note, id, now)->Ok_0;
                    assert(after[i] == merged_row(
                        b,
                        note,
                        matchable(merged_content(b.content, note.text)),
                        now,
                    ));
                },
                None => {
                    if noted(rows, note, id, now) is Ok {
                        let after = noted(rows, note, id, now)->Ok_0;
                        assert(after.drop_last() =~= rows);
                        assert(after[rows.len() as int].content == note.text);
                    }
                },
            }
        },
    }
}

/// A note that says the same as a memory in its scope is worked into that one:
/// no memory is added.
pub proof fn law_same_words_are_one_memory(
    rows: Seq<MemoryRow<Seq<char>>>,
    note: Note<Seq<char>>,
    id: Seq<char>,
    now: Seq<char>,
    i: int,
)
    requires
        0 <= i < rows.len(),
        rows[i].normalized_content == note.norm,
        rows[i].scope == note.scope,
        rows[i].conversation_id == note.conversation_id,
    ensures
        match noted(rows, note, id, now) {
            Ok(after) => after.len() == rows.len(),
            Err(_) => false,
        },
{
    lemma_first_where(rows, says_same(note));
    assert(says_same(note)(rows[i]));
}

// ---------------------------------------------------------------------------
// Fading
// ---------------------------------------------------------------------------

/// A memory of at least eight characters that is no word of assent or thanks
/// says enough.
pub proof fn law_what_says_enough(m: MemoryRow<Seq<char>>)
    requires
        m.content.len() > 0,
        m.content[0] != ' ',
        m.content.last() != ' ',
        !m.content.contains('\0'),
    ensures
        m.content.len() < 8 ==> is_faint(m),
        m.content.len() >= 8 && is_faint(m) ==> m.normalized_content.len() <= 4,
{
    assert(unspaced(m.content) == m.content);
    lemma_no_nul(m.content);
    let all = crate::db::upkeep::fading_words();
    reveal_strlit("ok");
    reveal_strlit("yes");
    reveal_strlit("fine");
    reveal_strlit("嗯");
    reveal_strlit("好的");
    reveal_strlit("谢谢");
    reveal_strlit("收到");
    reveal_strlit("知道了");
    if all.contains(m.normalized_content) {
        let k = all.index_of(m.normalized_content);
        assert(all[0].len() <= 4 && all[1].len() <= 4 && all[2].len() <= 4 && all[3].len() <= 4
            && all[4].len() <= 4 && all[5].len() <= 4 && all[6].len() <= 4 && all[7].len() <= 4);
        assert(k == 0 || k == 1 || k == 2 || k == 3 || k == 4 || k == 5 || k == 6 || k == 7);
    }
}

proof fn lemma_no_nul(s: Seq<char>)
    requires
        !s.contains('\0'),
    ensures
        before_nul(s) == s,
    decreases s.len(),
{
    if s.len() > 0 {
        assert(s.contains(s[0]));
        if s.drop_first().contains('\0') {
            let k = s.drop_first().index_of('\0');
            assert(s[k + 1] == '\0');
        }
        lemma_no_nul(s.drop_first());
        assert(seq![s[0]] + s.drop_first() =~= s);
    } else {
        assert(before_nul(s) =~= s);
    }
}

/// The milliseconds of so many days.
pub open spec fn days(n: int) -> int {
    n * 24 * 60 * 60 * 1000
}

/// A memory that says enough and was used in the last forty-five days does not
/// fade. Else it loses at most two steps, one for each reason, and never falls
/// below one; nothing but its importance and its time of change is touched.
pub proof fn law_fading(m: MemoryRow<Seq<char>>, age: Option<i64>, now: Seq<char>)
    requires
        1 <= m.importance <= 10,
    ensures
        ({
            let f = faded(m, age, now);
            let old = age is Some && age->0 > days(45);
            &&& f == (MemoryRow { importance: f.importance, updated_at: f.updated_at, ..m })
            &&& 1 <= f.importance <= m.importance
            &&& !is_faint(m) && !old ==> f == m
            &&& is_faint(m) && !old && m.importance > 1 ==> f.importance == m.importance - 1
            &&& !is_faint(m) && old && m.importance > 2 ==> f.importance == m.importance - 1
            &&& !is_faint(m) && m.importance <= 2 ==> f == m
            &&& is_faint(m) && 1 < m.importance <= 3 ==> f.importance == m.importance - 1
            &&& is_faint(m) && old && m.importance > 3 ==> f.importance == m.importance - 2
            &&& f.importance < m.importance ==> f.updated_at == now
            &&& f.importance == m.importance ==> f.updated_at == m.updated_at
        }),
{
}

/// A memory is forgotten only where it has become of no importance and was not
/// used for half a year; all others stay, in their order.
pub proof fn law_what_is_forgotten(
    rows: Seq<MemoryRow<Seq<char>>>,
    ages: Seq<Option<i64>>,
    now: Seq<char>,
    i: int,
)
    requires
        0 <= i < rows.len(),
        rows.len() == ages.len(),
    ensures
        all_faded(rows, ages, now).len() <= rows.len(),
        (ages[i] is None || ages[i]->0 <= days(180) || rows[i].importance >= 3) ==> exists|k: int|
            0 <= k < all_faded(rows, ages, now).len() && (#[trigger] all_faded(
                rows,
                ages,
                now,
            )[k]).id == rows[i].id && all_faded(rows, ages, now)[k].content == rows[i].content,
        distinct(rows, memory_key()) && ages[i] is Some && ages[i]->0 > days(180)
            && rows[i].importance <= 1 ==> forall|k: int|
            0 <= k < all_faded(rows, ages, now).len() ==> (#[trigger] all_faded(
                rows,
                ages,
                now,
            )[k]).id != rows[i].id,
{
    lemma_faded(rows, ages, now, rows.len() as int);
    assert(rows.take(rows.len() as int) =~= rows);
    let all = all_faded(rows, ages, now);
    if distinct(rows, memory_key()) && ages[i] is Some && ages[i]->0 > days(180)
        && rows[i].importance <= 1 {
        assert forall|k: int| 0 <= k < all.len() implies (#[trigger] all[k]).id != rows[i].id by {
            let j = choose|j: int|
                0 <= j < rows.len() && (#[trigger] rows[j]).id == all[k].id && !(ages[j] is Some
                    && ages[j]->0 > days(180) && rows[j].importance <= 1);
            if j < i {
                assert(memory_key()(rows[j]) != memory_key()(rows[i]));
            } else if i < j {
                assert(memory_key()(rows[i]) != memory_key()(rows[j]));
            }
        }
    }
}

proof fn lemma_faded(
    rows: Seq<MemoryRow<Seq<char>>>,
    ages: Seq<Option<i64>>,
    now: Seq<char>,
    n: int,
)
    requires
        0 <= n <= rows.len(),
        rows.len() == ages.len(),
    ensures
        ({
            let all = all_faded(rows.take(n), ages, now);
            &&& all.len() <= n
            &&& forall|i: int|
                0 <= i < n && (ages[i] is None || ages[i]->0 <= days(180) || rows[i].importance >= 3)
                    ==> exists|k: int|
                    0 <= k < all.len() && (#[trigger] all[k]).id == (#[trigger] rows[i]).id
                        && all[k].content == rows[i].content
            &&& forall|k: int|
                0 <= k < all.len() ==> exists|j: int|
                    0 <= j < rows.len() && (#[trigger] rows[j]).id == (#[trigger] all[k]).id && !(
                    ages[j] is Some && ages[j]->0 > days(180) && rows[j].importance <= 1)
        }),
    decreases n,
{
    if n > 0 {
        lemma_faded(rows, ages, now, n - 1);
        let part = rows.take(n);
        assert(part.drop_last() =~= rows.take(n - 1));
        assert(part.last() == rows[n - 1]);
        let before = all_faded(rows.take(n - 1), ages, now);
        let all = all_faded(part, ages, now);
        let last = faded(rows[n - 1], ages[n - 1], now);
        if all.len() > before.len() {
            assert(all[before.len() as int] == last);
        }
        assert forall|i: int|
            0 <= i < n && (ages[i] is None || ages[i]->0 <= days(180) || rows[i].importance >= 3)
                implies exists|k: int|
            0 <= k < all.len() && (#[trigger] all[k]).id == (#[trigger] rows[i]).id
                && all[k].content == rows[i].content by {
            if i < n - 1 {
                let k = choose|k: int|
                    0 <= k < before.len() && (#[trigger] before[k]).id == rows[i].id
                        && before[k].content == rows[i].content;
                assert(all[k] == before[k]);
            } else {
                assert(all[before.len() as int].id == rows[i].id);
            }
        }
        assert forall|k: int| 0 <= k < all.len() implies exists|j: int|
            0 <= j < rows.len() && (#[trigger] rows[j]).id == (#[trigger] all[k]).id && !(ages[j]
                is Some && ages[j]->0 > days(180) && rows[j].importance <= 1) by {
            if k < before.len() {
                assert(all[k] == before[k]);
            } else {
                assert(all[k].id == rows[n - 1].id);
            }
        }
    }
}

// ---------------------------------------------------------------------------
// Moving between conversations
// ---------------------------------------------------------------------------

/// A memory that is made to hold everywhere, or in one conversation, keeps its
/// text, its importance and its identifier, where no other memory there has the
/// same words.
pub proof fn law_rescoping_keeps_the_text(
    t: Tables,
    memory_id: Seq<char>,
    make_global: bool,
    conversation_id: Seq<char>,
    now: Seq<char>,
    i: int,
)
    requires
        distinct(t.memories, memory_key()),
        0 <= i < t.memories.len(),
        t.memories[i].id == memory_id,
        trimmed(conversation_id) == conversation_id,
        conversation_id.len() > 0,
        t.memories[i].scope == if make_global {
            "conversation"@
        } else {
            "global"@
        },
        trimmed(t.memories[i].normalized_content).len() > 0,
        forall|k: int|
            0 <= k < t.memories.len() && k != i ==> (#[trigger] t.memories[k]).normalized_content
                != t.memories[i].normalized_content,
    ensures
        match t.rescoped(memory_id, make_global, Some(conversation_id), now) {
            Ok(u) => u.memories.len() == t.memories.len() && u.memories[i] == (MemoryRow {
                scope: if make_global {
                    "global"@
                } else {
                    "conversation"@
                },
                conversation_id: if make_global {
                    None
                } else {
                    Some(conversation_id)
                },
                updated_at: now,
                last_used_at: now,
                ..t.memories[i]
            }) && u == (Tables { memories: u.memories, ..t }) && forall|k: int|
                0 <= k < t.memories.len() && k != i ==> #[trigger] u.memories[k] == t.memories[k],
            Err(_) => false,
        },
{
    crate::memory_laws::lemma_scopes();
    let rows = t.memories;
    lemma_first_where(rows, is_memory(memory_id));
    assert(is_memory(memory_id)(rows[i]));
    let at = first_where(rows, is_memory(memory_id))->0;
    if at < i {
        assert(memory_key()(rows[at]) != memory_key()(rows[i]));
    } else if i < at {
        assert(memory_key()(rows[i]) != memory_key()(rows[at]));
    }
    reveal_strlit("global");
    reveal_strlit("conversation");
    assert("global"@.len() != "conversation"@.len());
    let scope = if make_global {
        "global"@
    } else {
        "conversation"@
    };
    let conv = if make_global {
        None
    } else {
        Some(conversation_id)
    };
    let twin = crate::db::upkeep::is_twin(rows[i], scope, conv);
    lemma_first_where(rows, twin);
    if first_where(rows, twin) is Some {
        let k = first_where(rows, twin)->0;
        assert(rows[k].normalized_content == rows[i].normalized_content);
    }
}

// ---------------------------------------------------------------------------
// Working in
// ---------------------------------------------------------------------------

/// A note that no memory equals is worked into one in its scope that matches it
/// by fourteen points or more, and never into one that matches by fewer.
pub proof fn law_alike_texts_are_worked_in(
    rows: Seq<MemoryRow<Seq<char>>>,
    note: Note<Seq<char>>,
    i: int,
)
    requires
        0 <= i < rows.len() <= 300,
        rows[i].scope == note.scope,
        rows[i].conversation_id == note.conversation_id,
    ensures
        likeness(rows[i], note.text, note.norm) >= 14 && (forall|k: int|
            0 <= k < rows.len() ==> (#[trigger] rows[k]).id.len() > 0) ==> alike(rows, note)
            is Some,
        alike(rows, note) matches Some(b) ==> {
            &&& likeness(b, note.text, note.norm) >= 14
            &&& likeness(b, note.text, note.norm) >= likeness(rows[i], note.text, note.norm)
            &&& b.scope == note.scope
            &&& b.conversation_id == note.conversation_id
            &&& rows.contains(b)
        },
{
    let p = crate::db::memories::is_near(note);
    let kept = rows.filter(p);
    lemma_filter_len(rows, p);
    law_sorted(kept, weight_order());
    let near = sorted(kept, weight_order());
    let a = lemma_filter_keeps(rows, p, i);
    let k = lemma_sorted_has(kept, weight_order(), a);
    assert(near[k] == rows[i]);
    lemma_best_is_best(near, note.text, note.norm, k);
    if alike(rows, note) is Some {
        let j = lemma_alike(rows, note);
        assert(rows[j] == alike(rows, note)->0);
    }
    if likeness(rows[i], note.text, note.norm) >= 14 {
        let b = best_match(near, note.text, note.norm)->0;
        let m = lemma_best_in(near, note.text, note.norm);
        let c = lemma_sorted_from(kept, weight_order(), m);
        let d = crate::db::soundness::lemma_filter_member(rows, p, c);
        assert(rows[d] == b);
    }
}

proof fn lemma_best_is_best(
    rows: Seq<MemoryRow<Seq<char>>>,
    text: Seq<char>,
    norm: Seq<char>,
    k: int,
)
    requires
        0 <= k < rows.len(),
    ensures
        likeness(rows[k], text, norm) > 0 ==> best_match(rows, text, norm) is Some,
        best_match(rows, text, norm) matches Some(b) ==> likeness(b, text, norm) >= likeness(
            rows[k],
            text,
            norm,
        ) && likeness(b, text, norm) > 0,
    decreases rows.len(),
{
    let front = rows.drop_last();
    if k < front.len() {
        lemma_best_is_best(front, text, norm, k);
    } else if front.len() > 0 {
        lemma_best_is_best(front, text, norm, 0);
    }
}

proof fn lemma_best_in(rows: Seq<MemoryRow<Seq<char>>>, text: Seq<char>, norm: Seq<char>) -> (k: int)
    requires
        best_match(rows, text, norm) is Some,
    ensures
        0 <= k < rows.len(),
        best_match(rows, text, norm) == Some(rows[k]),
    decreases rows.len(),
{
    let before = best_match(rows.drop_last(), text, norm);
    if before is Some && best_match(rows, text, norm) == before {
        lemma_best_in(rows.drop_last(), text, norm)
    } else {
        rows.len() - 1
    }
}

/// How well a memory matches a note is what their texts and their forms without
/// noise share.
pub proof fn law_likeness(m: MemoryRow<Seq<char>>, text: Seq<char>, norm: Seq<char>) -> (points: (
    int,
    int,
))
    ensures
        gives(matchable(text), matchable(m.content), points.0),
        gives(matchable(norm), matchable(m.normalized_content), points.1),
        likeness(m, text, norm) == points.0 + points.1,
{
    law_overlap(matchable(text), matchable(m.content));
    law_overlap(matchable(norm), matchable(m.normalized_content));
    (
        crate::memory::overlap(matchable(text), matchable(m.content)),
        crate::memory::overlap(matchable(norm), matchable(m.normalized_content)),
    )
}

/// A memory into which a note was worked keeps its identifier, its scope and its
/// date, and its source where it has one. It is about as important as both: not
/// less than the less important, at most a step more than the other.
pub proof fn law_working_in(
    m: MemoryRow<Seq<char>>,
    note: Note<Seq<char>>,
    norm: Seq<char>,
    now: Seq<char>,
)
    requires
        1 <= m.importance <= 10,
        1 <= note.importance <= 10,
    ensures
        ({
            let r = merged_row(m, note, norm, now);
            let least = if m.importance <= note.importance {
                m.importance
            } else {
                note.importance
            };
            let most = if m.importance >= note.importance {
                m.importance
            } else {
                note.importance
            };
            &&& r.id == m.id
            &&& r.scope == m.scope
            &&& r.conversation_id == m.conversation_id
            &&& r.created_at == m.created_at
            &&& r.updated_at == now
            &&& r.last_used_at == now
            &&& r.normalized_content == norm
            &&& least <= r.importance <= most + 1
            &&& r.importance <= 10
            &&& m.importance == note.importance && m.importance < 10 && !crate::memory::low_value(
                r.content,
            ) ==> r.importance == m.importance + 1
            &&& 5 * (r.importance - 1) <= 3 * m.importance + 2 * note.importance
            &&& m.source_message_id matches Some(s) ==> (trimmed(s).len() > 0
                ==> r.source_message_id == Some(trimmed(s)))
            &&& m.source_message_id is None ==> r.source_message_id == note.source_message_id
            &&& m.source_conversation_id matches Some(s) ==> (trimmed(s).len() > 0
                ==> r.source_conversation_id == Some(trimmed(s)))
            &&& m.source_conversation_id is None ==> r.source_conversation_id
                == note.source_conversation_id
        }),
{
    let o = m.importance as int;
    let i = note.importance as int;
    let q = (o * 3 + i * 2) / 5;
    assert(5 * q <= o * 3 + i * 2 < 5 * q + 5);
}

/// A memory is live where it holds for all, or for a conversation that is there.
pub proof fn law_live_memories(t: Tables, m: MemoryRow<Seq<char>>, id: Seq<char>)
    ensures
        m.scope == "global"@ ==> t.is_live(m) && t.is_for(m, Some(id)) && t.is_for(m, None),
        m.scope == "conversation"@ && m.conversation_id == Some(id) ==> (t.is_live(m)
            <==> t.has_conversation(id)) && (t.is_for(m, Some(id)) <==> t.has_conversation(id)),
        m.scope == "conversation"@ && m.conversation_id != Some(id) ==> !t.is_for(m, Some(id)),
        m.scope != "conversation"@ && m.scope != "global"@ ==> !t.is_live(m) && !t.is_for(
            m,
            Some(id),
        ),
{
    reveal_strlit("global");
    reveal_strlit("conversation");
    assert("global"@.len() != "conversation"@.len());
}

/// The page of memories shows those that hold in the conversation, or all live
/// ones where none is named: each is there, as long as there are no more than
/// were asked for.
pub proof fn law_pages_of_memories(t: Tables, id: Seq<char>, limit: int, i: int)
    requires
        0 <= i < t.memories.len() <= limit,
    ensures
        ({
            let m = t.memories[i];
            let page = t.memory_page(id, limit);
            let mine = if trimmed(id).len() == 0 {
                t.is_live(m)
            } else {
                t.is_for(m, Some(trimmed(id)))
            };
            mine ==> exists|k: int|
                0 <= k < page.len() && (#[trigger] page[k]).id == m.id && page[k].content
                    == m.content && page[k].importance == m.importance
        }),
{
    let m = t.memories[i];
    let p = if trimmed(id).len() == 0 {
        t.live()
    } else {
        t.meant_for(Some(trimmed(id)))
    };
    let page = t.memory_page(id, limit);
    let kept = t.memories.filter(p);
    lemma_filter_len(t.memories, p);
    law_sorted(kept, weight_order());
    if p(m) {
        let a = lemma_filter_keeps(t.memories, p, i);
        let k = lemma_sorted_has(kept, weight_order(), a);
        assert(page[k].id == m.id);
    }
}

/// A memory that moves to where another has the same words is taken in by that
/// one: it is gone, the other holds both texts, and is a step more important
/// than the more important of them.
pub proof fn law_moved_memories_are_taken_in(
    kept: MemoryRow<Seq<char>>,
    moved: MemoryRow<Seq<char>>,
    now: Seq<char>,
)
    requires
        1 <= kept.importance <= 10,
        1 <= moved.importance <= 10,
        trimmed(kept.content).len() + trimmed(moved.content).len() < 400,
    ensures
        ({
            let r = crate::db::upkeep::united(kept, moved, now);
            &&& r.id == kept.id
            &&& r.scope == kept.scope
            &&& r.conversation_id == kept.conversation_id
            &&& has_part(r.content, trimmed(kept.content))
            &&& has_part(r.content, trimmed(moved.content))
            &&& r.normalized_content == matchable(r.content)
            &&& r.importance >= kept.importance
            &&& r.importance >= moved.importance
            &&& r.importance <= 10
            &&& r.importance <= kept.importance + 1 || r.importance <= moved.importance + 1
            &&& !crate::memory::low_value(r.content) && kept.importance < 10 && moved.importance
                < 10 ==> r.importance > kept.importance && r.importance > moved.importance
        }),
{
    law_merging_loses_nothing(kept.content, moved.content);
}

/// A memory can only be made one of a conversation where one is named, or where
/// it had one.
pub proof fn law_rescoping_needs_a_conversation(
    t: Tables,
    memory_id: Seq<char>,
    now: Seq<char>,
    i: int,
)
    requires
        distinct(t.memories, memory_key()),
        0 <= i < t.memories.len(),
        t.memories[i].id == memory_id,
    ensures
        t.memories[i].conversation_id is None ==> t.rescoped(memory_id, false, None, now) == Err::<
            Tables,
            DbError,
        >(DbError::ConversationRequired),
        t.rescoped(memory_id, true, None, now) is Ok,
{
    lemma_first_where(t.memories, is_memory(memory_id));
    assert(is_memory(memory_id)(t.memories[i]));
    let at = first_where(t.memories, is_memory(memory_id))->0;
    if at < i {
        assert(memory_key()(t.memories[at]) != memory_key()(t.memories[i]));
    } else if i < at {
        assert(memory_key()(t.memories[i]) != memory_key()(t.memories[at]));
    }
}

} // verus!
