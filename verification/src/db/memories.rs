//! What is remembered of the user: storing, merging, finding, fading and
//! moving memories between conversations.
use vstd::prelude::*;
use crate::db::{carried_out, is_memory, Database, DbError, Tables};
use crate::memory::{
    looks_low_value_memory, low_value, matchable, merge_memory_content, merged_content,
    normalize_for_match, score_text_overlap, text_overlap,
};
use crate::models::{copy_opt, MemoryRow};
use crate::settings::{clamp, clamped, normalize_memory_scope, scope_name};
use crate::db::order_laws::lemma_sorted_from;
use crate::db::soundness::{distinct, lemma_filter_member, memory_key};
use crate::sorting::{law_sorted, sorted, stable_sort, views};
use crate::stamps::{fresh_id, is_time_text, is_uuid, now_iso};
use crate::table::{
    find_row, first_where, lemma_first_where, limit_rows, limited, select,
};
use crate::text::{char_count, le_text, opt_str, opt_text, text_eq, text_le, trim, trimmed};

verus! {

// ---------------------------------------------------------------------------
// Storing
// ---------------------------------------------------------------------------

/// An optional text without the white space around it, where something is left.
pub open spec fn filled(s: Option<Seq<char>>) -> Option<Seq<char>> {
    match s {
        Some(t) => if trimmed(t).len() == 0 {
            None
        } else {
            Some(trimmed(t))
        },
        None => None,
    }
}

/// The first of two optional texts, else the second.
pub open spec fn either(a: Option<Seq<char>>, b: Option<Seq<char>>) -> Option<Seq<char>> {
    if a is Some {
        a
    } else {
        b
    }
}

/// An optional text without the white space around it, where something is left.
pub fn filled_text(s: Option<&str>) -> (r: Option<String>)
    ensures
        opt_text(r) == filled(opt_str(s)),
{
    match s {
        Some(t) => {
            let u = trim(t);
            if u.as_str().is_empty() {
                None
            } else {
                Some(u)
            }
        },
        None => None,
    }
}

/// An optional text, borrowed.
pub fn opt_ref(s: &Option<String>) -> (r: Option<&str>)
    ensures
        opt_str(r) == opt_text(*s),
{
    match s {
        Some(t) => Some(t.as_str()),
        None => None,
    }
}

/// Whether two optional texts are the same.
pub fn same_opt(a: &Option<String>, b: &Option<String>) -> (r: bool)
    ensures
        r == (opt_text(*a) == opt_text(*b)),
{
    match (a, b) {
        (Some(x), Some(y)) => text_eq(x, y),
        (None, None) => true,
        _ => false,
    }
}

/// The memory belongs to this scope and this conversation.
pub open spec fn lives_in(
    m: MemoryRow<Seq<char>>,
    scope: Seq<char>,
    conversation_id: Option<Seq<char>>,
) -> bool {
    m.scope == scope && m.conversation_id == conversation_id
}

/// Important memories first; among equals those used last.
pub open spec fn memory_before(a: MemoryRow<Seq<char>>, b: MemoryRow<Seq<char>>) -> bool {
    a.importance > b.importance || (a.importance == b.importance && text_le(
        b.last_used_at,
        a.last_used_at,
    ))
}

/// Important memories first; among equals those used last.
pub open spec fn weight_order() -> spec_fn(MemoryRow<Seq<char>>, MemoryRow<Seq<char>>) -> bool {
    |a: MemoryRow<Seq<char>>, b: MemoryRow<Seq<char>>| memory_before(a, b)
}

/// Important memories first; among equals those used last.
pub fn precedes(a: &MemoryRow, b: &MemoryRow) -> (r: bool)
    ensures
        r == memory_before(a@, b@),
{
    a.importance > b.importance || (a.importance == b.importance && le_text(
        &b.last_used_at,
        &a.last_used_at,
    ))
}

/// How important a text is taken to be that is said to have this importance.
pub open spec fn incoming_importance(text: Seq<char>, importance: int) -> int {
    let i = clamped(importance, 1, 10);
    if !low_value(text) {
        i
    } else if i <= 3 {
        1
    } else {
        i - 2
    }
}

/// The importance after a text of importance `incoming` was worked into a
/// memory of importance `old_importance`, giving `content`.
pub open spec fn merged_importance(
    old_importance: int,
    incoming: int,
    content: Seq<char>,
) -> int {
    let i = clamped((old_importance * 3 + incoming * 2) / 5, 1, 10);
    if low_value(content) || i == 10 {
        i
    } else {
        i + 1
    }
}

/// One step more important, up to the top.
pub open spec fn raised(importance: int) -> int {
    if importance >= 10 {
        10
    } else {
        importance + 1
    }
}

/// How important a text is taken to be that is said to have this importance.
fn adjust_importance(text: &str, importance: i64) -> (r: i64)
    ensures
        r == incoming_importance(text@, importance as int),
        1 <= r <= 10,
{
    let i: i64 = clamp(importance, 1, 10);
    if !looks_low_value_memory(text) {
        i
    } else if i <= 3 {
        1
    } else {
        i - 2
    }
}

/// The importance after a text was worked into a memory.
fn merge_importance(old_importance: i64, incoming: i64, content: &str) -> (r: i64)
    requires
        1 <= incoming <= 10,
    ensures
        r == merged_importance(old_importance as int, incoming as int, content@),
        1 <= r <= 10,
{
    let mixed: i64 = if old_importance > 20 {
        10
    } else if old_importance < -10 || old_importance * 3 + incoming * 2 < 0 {
        1
    } else {
        clamp((old_importance * 3 + incoming * 2) / 5, 1, 10)
    };
    if looks_low_value_memory(content) || mixed == 10 {
        mixed
    } else {
        mixed + 1
    }
}

/// How well a memory matches a text and its form without noise.
pub open spec fn likeness(m: MemoryRow<Seq<char>>, text: Seq<char>, norm: Seq<char>) -> int {
    text_overlap(norm, m.normalized_content) + text_overlap(text, m.content)
}

/// How well a memory matches a text and its form without noise.
pub fn rate_likeness(m: &MemoryRow, text: &str, norm: &str) -> (r: i64)
    ensures
        r == likeness(m@, text@, norm@),
        0 <= r <= 24,
{
    score_text_overlap(norm, &m.normalized_content) + score_text_overlap(text, &m.content)
}

/// The first of the memories that match best, where any matches at all.
pub open spec fn best_match(
    rows: Seq<MemoryRow<Seq<char>>>,
    text: Seq<char>,
    norm: Seq<char>,
) -> Option<MemoryRow<Seq<char>>>
    decreases rows.len(),
{
    if rows.len() == 0 {
        None
    } else {
        let before = best_match(rows.drop_last(), text, norm);
        let least = match before {
            Some(b) => likeness(b, text, norm),
            None => 0,
        };
        if likeness(rows.last(), text, norm) > least {
            Some(rows.last())
        } else {
            before
        }
    }
}

/// The first of the memories that match best, with how well it matches.
fn find_best_match(rows: &Vec<MemoryRow>, text: &str, norm: &str) -> (r: Option<(MemoryRow, i64)>)
    ensures
        match r {
            Some(b) => best_match(views(rows@), text@, norm@) == Some(b.0@) && b.1 == likeness(
                b.0@,
                text@,
                norm@,
            ),
            None => best_match(views(rows@), text@, norm@) is None,
        },
{
    let ghost all = views(rows@);
    let mut best: Option<usize> = None;
    let mut best_score: i64 = 0;
    for i in 0..rows.len()
        invariant
            all == views(rows@),
            match best {
                Some(k) => k < i && best_match(all.take(i as int), text@, norm@) == Some(
                    all[k as int],
                ) && best_score == likeness(all[k as int], text@, norm@),
                None => best_match(all.take(i as int), text@, norm@) is None && best_score == 0,
            },
    {
        assert(all.take(i + 1).drop_last() =~= all.take(i as int));
        let score: i64 = rate_likeness(&rows[i], text, norm);
        if score > best_score {
            best_score = score;
            best = Some(i);
        }
    }
    assert(all.take(all.len() as int) =~= all);
    match best {
        Some(k) => Some((rows[k].clone(), best_score)),
        None => None,
    }
}

/// What is to be remembered, with the white space around its parts removed.
pub struct Note<S = String> {
    pub text: S,
    pub norm: S,
    pub importance: i64,
    pub scope: S,
    pub conversation_id: Option<S>,
    pub source_message_id: Option<S>,
    pub source_conversation_id: Option<S>,
}

impl View for Note<String> {
    type V = Note<Seq<char>>;

    open spec fn view(&self) -> Note<Seq<char>> {
        Note {
            text: self.text@,
            norm: self.norm@,
            importance: self.importance,
            scope: self.scope@,
            conversation_id: opt_text(self.conversation_id),
            source_message_id: opt_text(self.source_message_id),
            source_conversation_id: opt_text(self.source_conversation_id),
        }
    }
}

/// What is to be remembered of a text, if anything: nothing of one with fewer
/// than six characters and nothing of one that is all noise.
pub open spec fn note_of(
    content: Seq<char>,
    importance: i64,
    scope: Seq<char>,
    conversation_id: Option<Seq<char>>,
    source_message_id: Option<Seq<char>>,
    source_conversation_id: Option<Seq<char>>,
) -> Option<Note<Seq<char>>> {
    let text = trimmed(content);
    if text.len() < 6 || matchable(text).len() == 0 {
        None
    } else {
        Some(
            Note {
                text,
                norm: matchable(text),
                importance: incoming_importance(text, importance as int) as i64,
                scope: scope_name(scope),
                conversation_id: if scope_name(scope) == "conversation"@ {
                    filled(conversation_id)
                } else {
                    None
                },
                source_message_id: filled(source_message_id),
                source_conversation_id: filled(source_conversation_id),
            },
        )
    }
}

/// The memory `m` with a note worked into it; `norm` is its new form without
/// noise.
pub open spec fn merged_row(
    m: MemoryRow<Seq<char>>,
    note: Note<Seq<char>>,
    norm: Seq<char>,
    now: Seq<char>,
) -> MemoryRow<Seq<char>> {
    let content = merged_content(m.content, note.text);
    MemoryRow {
        content,
        normalized_content: norm,
        importance: merged_importance(m.importance as int, note.importance as int, content) as i64,
        source_message_id: either(filled(m.source_message_id), note.source_message_id),
        source_conversation_id: either(
            filled(m.source_conversation_id),
            note.source_conversation_id,
        ),
        updated_at: now,
        last_used_at: now,
        ..m
    }
}

/// A new memory.
pub open spec fn new_row(note: Note<Seq<char>>, id: Seq<char>, now: Seq<char>) -> MemoryRow<
    Seq<char>,
> {
    MemoryRow {
        id,
        content: note.text,
        normalized_content: note.norm,
        importance: note.importance,
        created_at: now,
        updated_at: now,
        last_used_at: now,
        scope: note.scope,
        conversation_id: note.conversation_id,
        source_message_id: note.source_message_id,
        source_conversation_id: note.source_conversation_id,
    }
}

/// The memory lives where the note is to live.
pub open spec fn is_near(note: Note<Seq<char>>) -> spec_fn(MemoryRow<Seq<char>>) -> bool {
    |m: MemoryRow<Seq<char>>| lives_in(m, note.scope, note.conversation_id)
}

/// The memory lives where the note is to live and has the same words.
pub open spec fn says_same(note: Note<Seq<char>>) -> spec_fn(MemoryRow<Seq<char>>) -> bool {
    |m: MemoryRow<Seq<char>>|
        m.normalized_content == note.norm && lives_in(m, note.scope, note.conversation_id)
}

/// How alike a memory has to be for a note to be worked into it.
pub const MERGE_LIKENESS: i64 = 14;

/// How many memories are searched for one that is alike.
pub const MERGE_SCAN_LIMIT: i64 = 300;

/// The memory into which a note is worked that no memory equals.
pub open spec fn alike(rows: Seq<MemoryRow<Seq<char>>>, note: Note<Seq<char>>) -> Option<
    MemoryRow<Seq<char>>,
> {
    let near = limited(
        sorted(
            rows.filter(is_near(note)),
            weight_order(),
        ),
        MERGE_SCAN_LIMIT as int,
    );
    match best_match(near, note.text, note.norm) {
        Some(b) => if likeness(b, note.text, note.norm) >= MERGE_LIKENESS && b.id.len() > 0 {
            Some(b)
        } else {
            None
        },
        None => None,
    }
}

/// The memories after a note was taken down at `now`: worked into the memory
/// with the same words, else into the one most alike, else added under `id`.
pub open spec fn noted(
    rows: Seq<MemoryRow<Seq<char>>>,
    note: Note<Seq<char>>,
    id: Seq<char>,
    now: Seq<char>,
) -> Result<Seq<MemoryRow<Seq<char>>>, DbError> {
    let same = first_where(
        rows,
        says_same(note),
    );
    match same {
        Some(i) => Ok(rows.update(i, merged_row(rows[i], note, note.norm, now))),
        None => match alike(rows, note) {
            Some(b) => match first_where(rows, is_memory(b.id)) {
                Some(i) => Ok(
                    rows.update(
                        i,
                        merged_row(b, note, matchable(merged_content(b.content, note.text)), now),
                    ),
                ),
                None => Ok(rows),
            },
            None => if first_where(rows, is_memory(id)) is Some {
                Err(DbError::MemoryExists)
            } else {
                Ok(rows.push(new_row(note, id, now)))
            },
        },
    }
}

impl Tables {
    /// What is stored after a text was to be remembered at `now`; a new memory
    /// gets the identifier `id`.
    pub open spec fn remembered(
        self,
        note: Option<Note<Seq<char>>>,
        id: Seq<char>,
        now: Seq<char>,
    ) -> Result<Tables, DbError> {
        match note {
            None => Ok(self),
            Some(n) => match noted(self.memories, n, id, now) {
                Ok(memories) => Ok(Tables { memories, ..self }),
                Err(e) => Err(e),
            },
        }
    }
}

/// What is to be remembered of a text, if anything.
pub fn make_note(
    content: &str,
    importance: i64,
    scope: &str,
    conversation_id: Option<&str>,
    source_message_id: Option<&str>,
    source_conversation_id: Option<&str>,
) -> (r: Option<Note>)
    ensures
        match r {
            Some(n) => note_of(
                content@,
                importance,
                scope@,
                opt_str(conversation_id),
                opt_str(source_message_id),
                opt_str(source_conversation_id),
            ) == Some(n@) && 1 <= n.importance <= 10,
            None => note_of(
                content@,
                importance,
                scope@,
                opt_str(conversation_id),
                opt_str(source_message_id),
                opt_str(source_conversation_id),
            ) is None,
        },
{
    let text = trim(content);
    if char_count(&text) < 6 {
        return None;
    }
    let norm = normalize_for_match(&text);
    if norm.as_str().is_empty() {
        return None;
    }
    let scope = normalize_memory_scope(scope);
    let conversation_id = if text_eq(scope, "conversation") {
        filled_text(conversation_id)
    } else {
        None
    };
    let importance: i64 = adjust_importance(&text, importance);
    Some(
        Note {
            text,
            norm,
            importance,
            scope: scope.to_owned(),
            conversation_id,
            source_message_id: filled_text(source_message_id),
            source_conversation_id: filled_text(source_conversation_id),
        },
    )
}

/// The first of two optional texts, else the second.
fn choose_source(a: &Option<String>, b: &Option<String>) -> (r: Option<String>)
    ensures
        opt_text(r) == either(filled(opt_text(*a)), opt_text(*b)),
{
    match filled_text(opt_ref(a)) {
        Some(x) => Some(x),
        None => copy_opt(b),
    }
}

/// The memory `m` with a note worked into it; with `fresh_norm` its form
/// without noise is taken anew, else it is that of the note.
fn merge_row(m: &MemoryRow, note: &Note, fresh_norm: bool, now: &str) -> (r: MemoryRow)
    requires
        1 <= note.importance <= 10,
    ensures
        r@ == merged_row(
            m@,
            note@,
            if fresh_norm {
                matchable(merged_content(m@.content, note@.text))
            } else {
                note@.norm
            },
            now@,
        ),
{
    let content = merge_memory_content(&m.content, &note.text);
    let importance: i64 = merge_importance(m.importance, note.importance, &content);
    let norm = if fresh_norm {
        normalize_for_match(&content)
    } else {
        note.norm.clone()
    };
    MemoryRow {
        id: m.id.clone(),
        content,
        normalized_content: norm,
        importance,
        created_at: m.created_at.clone(),
        updated_at: now.to_owned(),
        last_used_at: now.to_owned(),
        scope: m.scope.clone(),
        conversation_id: copy_opt(&m.conversation_id),
        source_message_id: choose_source(&m.source_message_id, &note.source_message_id),
        source_conversation_id: choose_source(
            &m.source_conversation_id,
            &note.source_conversation_id,
        ),
    }
}

impl Database {
    /// The position of the first memory with this identifier.
    pub fn find_memory(&self, id: &str) -> (r: Option<usize>)
        ensures
            match r {
                Some(i) => i < self.memories.len() && first_where(
                    self@.memories,
                    is_memory(id@),
                ) == Some(i as int),
                None => first_where(self@.memories, is_memory(id@)) is None,
            },
    {
        find_row(
            &self.memories,
            |m: &MemoryRow| -> (r: bool)
                ensures
                    r == (m@.id == id@)
                { text_eq(&m.id, id) },
            Ghost(is_memory(id@)),
        )
    }

    /// The memories of a scope and a conversation, the weightiest first.
    fn memories_near(&self, note: &Note) -> (r: Vec<MemoryRow>)
        ensures
            views(r@) == limited(
                sorted(
                    self@.memories.filter(is_near(note@)),
                    weight_order(),
                ),
                MERGE_SCAN_LIMIT as int,
            ),
    {
        let near = select(
            &self.memories,
            |m: &MemoryRow| -> (r: bool)
                ensures
                    r == lives_in(m@, note@.scope, note@.conversation_id)
                {
                    text_eq(&m.scope, &note.scope) && same_opt(
                        &m.conversation_id,
                        &note.conversation_id,
                    )
                },
            Ghost(is_near(note@)),
        );
        let mut near = stable_sort(
            near,
            |a: &MemoryRow, b: &MemoryRow| -> (r: bool)
                ensures
                    r == memory_before(a@, b@)
                { precedes(a, b) },
            Ghost(weight_order()),
        );
        limit_rows(&mut near, MERGE_SCAN_LIMIT);
        near
    }

    /// Takes a note down at `now`; a new memory gets the identifier `id`.
    pub fn take_note(&mut self, note: &Note, id: &str, now: &str) -> (r: Result<(), DbError>)
        requires
            1 <= note.importance <= 10,
        ensures
            carried_out(
                r,
                old(self)@.remembered(Some(note@), id@, now@),
                old(self)@,
                final(self)@,
            ),
    {
        let ghost rows = self@.memories;
        let same = find_row(
            &self.memories,
            |m: &MemoryRow| -> (r: bool)
                ensures
                    r == (m@.normalized_content == note@.norm && lives_in(
                        m@,
                        note@.scope,
                        note@.conversation_id,
                    ))
                {
                    text_eq(&m.normalized_content, &note.norm) && text_eq(&m.scope, &note.scope)
                        && same_opt(&m.conversation_id, &note.conversation_id)
                },
            Ghost(says_same(note@)),
        );
        if let Some(i) = same {
            let row = merge_row(&self.memories[i], note, false, now);
            let ghost next = rows.update(i as int, row@);
            self.memories.set(i, row);
            assert(views(self.memories@) =~= next);
            return Ok(());
        }
        let near = self.memories_near(note);
        if let Some((b, score)) = find_best_match(&near, &note.text, &note.norm) {
            if score >= MERGE_LIKENESS && !b.id.as_str().is_empty() {
                assert(alike(rows, note@) == Some(b@));
                if let Some(i) = self.find_memory(&b.id) {
                    let row = merge_row(&b, note, true, now);
                    let ghost next = rows.update(i as int, row@);
                    self.memories.set(i, row);
                    assert(views(self.memories@) =~= next);
                }
                return Ok(());
            }
        }
        assert(alike(rows, note@) is None);
        if self.find_memory(id).is_some() {
            return Err(DbError::MemoryExists);
        }
        let row = MemoryRow {
            id: id.to_owned(),
            content: note.text.clone(),
            normalized_content: note.norm.clone(),
            importance: note.importance,
            created_at: now.to_owned(),
            updated_at: now.to_owned(),
            last_used_at: now.to_owned(),
            scope: note.scope.clone(),
            conversation_id: copy_opt(&note.conversation_id),
            source_message_id: copy_opt(&note.source_message_id),
            source_conversation_id: copy_opt(&note.source_conversation_id),
        };
        let ghost next = rows.push(row@);
        self.memories.push(row);
        assert(views(self.memories@) =~= next);
        Ok(())
    }

    /// Remembers a text at `now`; a new memory gets the identifier `id`.
    pub fn upsert_memory_at(
        &mut self,
        content: &str,
        importance: i64,
        scope: &str,
        conversation_id: Option<&str>,
        source_message_id: Option<&str>,
        source_conversation_id: Option<&str>,
        id: &str,
        now: &str,
    ) -> (r: Result<(), DbError>)
        ensures
            ({
                let note = note_of(
                    content@,
                    importance,
                    scope@,
                    opt_str(conversation_id),
                    opt_str(source_message_id),
                    opt_str(source_conversation_id),
                );
                carried_out(
                    r,
                    old(self)@.remembered(note, id@, now@),
                    old(self)@,
                    final(self)@,
                )
            }),
    {
        match make_note(
            content,
            importance,
            scope,
            conversation_id,
            source_message_id,
            source_conversation_id,
        ) {
            Some(note) => self.take_note(&note, id, now),
            None => Ok(()),
        }
    }

    /// Remembers a text.
    pub fn upsert_memory(
        &mut self,
        content: &str,
        importance: i64,
        scope: &str,
        conversation_id: Option<&str>,
        source_message_id: Option<&str>,
        source_conversation_id: Option<&str>,
    ) -> (r: Result<(), DbError>)
        ensures
            exists|id: Seq<char>, now: Seq<char>|
                is_uuid(id) && is_time_text(now) && carried_out(
                    r,
                    #[trigger] old(self)@.remembered(
                        note_of(
                            content@,
                            importance,
                            scope@,
                            opt_str(conversation_id),
                            opt_str(source_message_id),
                            opt_str(source_conversation_id),
                        ),
                        id,
                        now,
                    ),
                    old(self)@,
                    final(self)@,
                ),
    {
        let id = fresh_id();
        let now = now_iso();
        self.upsert_memory_at(
            content,
            importance,
            scope,
            conversation_id,
            source_message_id,
            source_conversation_id,
            &id,
            &now,
        )
    }
}

// ---------------------------------------------------------------------------
// Laws
// ---------------------------------------------------------------------------

proof fn lemma_best_match(
    rows: Seq<MemoryRow<Seq<char>>>,
    text: Seq<char>,
    norm: Seq<char>,
) -> (k: int)
    requires
        best_match(rows, text, norm) is Some,
    ensures
        0 <= k < rows.len(),
        best_match(rows, text, norm) == Some(rows[k]),
    decreases rows.len(),
{
    if best_match(rows.drop_last(), text, norm) is Some && best_match(rows, text, norm)
        == best_match(rows.drop_last(), text, norm) {
        lemma_best_match(rows.drop_last(), text, norm)
    } else {
        rows.len() - 1
    }
}

/// A memory that is alike is one of the memories and lives where the note is to
/// live.
pub proof fn lemma_alike(rows: Seq<MemoryRow<Seq<char>>>, note: Note<Seq<char>>) -> (j: int)
    requires
        alike(rows, note) is Some,
    ensures
        0 <= j < rows.len(),
        alike(rows, note) == Some(rows[j]),
        lives_in(rows[j], note.scope, note.conversation_id),
{
    let kept = rows.filter(is_near(note));
    let all = sorted(kept, weight_order());
    law_sorted(kept, weight_order());
    let near = limited(all, MERGE_SCAN_LIMIT as int);
    let k = lemma_best_match(near, note.text, note.norm);
    let a = lemma_sorted_from(kept, weight_order(), k);
    lemma_filter_member(rows, is_near(note), a)
}

/// Taking a note changes no memory of another scope or another conversation.
pub proof fn law_note_stays_in_its_scope(
    rows: Seq<MemoryRow<Seq<char>>>,
    note: Note<Seq<char>>,
    id: Seq<char>,
    now: Seq<char>,
    k: int,
)
    requires
        distinct(rows, memory_key()),
        0 <= k < rows.len(),
        !lives_in(rows[k], note.scope, note.conversation_id),
    ensures
        match noted(rows, note, id, now) {
            Ok(after) => k < after.len() && after[k] == rows[k],
            Err(_) => true,
        },
{
    lemma_first_where(rows, says_same(note));
    if first_where(rows, says_same(note)) is None && alike(rows, note) is Some {
        let j = lemma_alike(rows, note);
        lemma_first_where(rows, is_memory(rows[j].id));
        match first_where(rows, is_memory(rows[j].id)) {
            Some(i) => {
                if i < j {
                    assert(memory_key()(rows[i]) != memory_key()(rows[j]));
                } else if j < i {
                    assert(memory_key()(rows[j]) != memory_key()(rows[i]));
                }
            },
            None => {},
        }
    }
}

/// A note that was added, or worked into a memory with the same words, adds
/// nothing when it is taken again.
pub proof fn law_note_taken_again_adds_nothing(
    rows: Seq<MemoryRow<Seq<char>>>,
    note: Note<Seq<char>>,
    id: Seq<char>,
    now: Seq<char>,
    again: Seq<char>,
    later: Seq<char>,
)
    requires
        first_where(rows, says_same(note)) is Some || alike(rows, note) is None,
    ensures
        match noted(rows, note, id, now) {
            Ok(after) => match noted(after, note, again, later) {
                Ok(last) => last.len() == after.len(),
                Err(_) => false,
            },
            Err(e) => e == DbError::MemoryExists,
        },
{
    let p = says_same(note);
    lemma_first_where(rows, p);
    match noted(rows, note, id, now) {
        Ok(after) => {
            lemma_first_where(after, p);
            match first_where(rows, p) {
                Some(i) => {
                    assert(p(after[i]));
                },
                None => {
                    assert(p(after[rows.len() as int]));
                },
            }
        },
        Err(_) => {},
    }
}

} // verus!
