//! Moving memories between conversations and letting them fade.
use vstd::prelude::*;
use crate::db::memories::{
    either, filled, filled_text, lives_in, opt_ref, raised, same_opt,
};
use crate::db::{carried_out, is_memory, is_other_memory, Database, DbError, Tables};
use crate::memory::{
    looks_low_value_memory, low_value, matchable, merge_memory_content, merged_content,
    normalize_for_match,
};
use crate::models::{copy_opt, MemoryRow};
use crate::settings::{clamp, clamped, normalize_memory_scope, scope_name};
use crate::db::soundness::{distinct, lemma_filter_member, memory_key};
use crate::sorting::views;
use crate::stamps::{is_time_text, now_iso};
use crate::table::{find_row, first_where, keep_rows, lemma_first_where};
use crate::text::{
    before_nul, blank, chars_of, cut_at_nul, is_blank, law_trimmed_stays, opt_str, opt_text,
    sub_chars, text_eq, trimmed,
};

verus! {

// ---------------------------------------------------------------------------
// Scope
// ---------------------------------------------------------------------------

/// The conversation that a memory is to belong to.
pub open spec fn target_conversation(
    m: MemoryRow<Seq<char>>,
    make_global: bool,
    conversation_id: Option<Seq<char>>,
) -> Option<Seq<char>> {
    if make_global {
        None
    } else {
        either(filled(conversation_id), filled(m.conversation_id))
    }
}

/// The name of the scope that a memory is to have.
pub open spec fn target_scope(make_global: bool) -> Seq<char> {
    if make_global {
        "global"@
    } else {
        "conversation"@
    }
}

/// The words by which a memory is told from others.
pub open spec fn known_as(m: MemoryRow<Seq<char>>) -> Seq<char> {
    if is_blank(m.normalized_content) {
        matchable(m.content)
    } else {
        m.normalized_content
    }
}

/// The memory `kept` after it took in `moved`, which says the same.
pub open spec fn united(
    kept: MemoryRow<Seq<char>>,
    moved: MemoryRow<Seq<char>>,
    now: Seq<char>,
) -> MemoryRow<Seq<char>> {
    let content = merged_content(kept.content, moved.content);
    let most = clamped(
        if kept.importance >= moved.importance {
            kept.importance as int
        } else {
            moved.importance as int
        },
        1,
        10,
    );
    MemoryRow {
        content,
        normalized_content: matchable(content),
        importance: (if low_value(content) {
            most
        } else {
            raised(most)
        }) as i64,
        updated_at: now,
        last_used_at: now,
        ..kept
    }
}

/// Another memory that says the same as `m` lives in this scope and this
/// conversation.
pub open spec fn is_twin(
    m: MemoryRow<Seq<char>>,
    scope: Seq<char>,
    conversation_id: Option<Seq<char>>,
) -> spec_fn(MemoryRow<Seq<char>>) -> bool {
    |d: MemoryRow<Seq<char>>|
        d.id != m.id && d.normalized_content == known_as(m) && lives_in(d, scope, conversation_id)
}

/// The memories after the one at `at` was moved to a scope and a conversation.
pub open spec fn moved(
    rows: Seq<MemoryRow<Seq<char>>>,
    at: int,
    scope: Seq<char>,
    conversation_id: Option<Seq<char>>,
    now: Seq<char>,
) -> Seq<MemoryRow<Seq<char>>> {
    let m = rows[at];
    if scope_name(m.scope) == scope && filled(m.conversation_id) == conversation_id {
        rows
    } else {
        match first_where(
            rows,
            is_twin(m, scope, conversation_id),
        ) {
            Some(k) => rows.update(k, united(rows[k], m, now)).filter(
                is_other_memory(m.id),
            ),
            None => rows.update(
                at,
                MemoryRow { scope, conversation_id, updated_at: now, last_used_at: now, ..m },
            ),
        }
    }
}

impl Tables {
    /// What is stored after a memory was made one for all conversations, or
    /// one for a single conversation, at `now`.
    pub open spec fn rescoped(
        self,
        memory_id: Seq<char>,
        make_global: bool,
        conversation_id: Option<Seq<char>>,
        now: Seq<char>,
    ) -> Result<Tables, DbError> {
        match first_where(self.memories, is_memory(memory_id)) {
            None => Err(DbError::MemoryNotFound),
            Some(at) => {
                let target = target_conversation(self.memories[at], make_global, conversation_id);
                if !make_global && target is None {
                    Err(DbError::ConversationRequired)
                } else {
                    Ok(
                        Tables {
                            memories: moved(
                                self.memories,
                                at,
                                target_scope(make_global),
                                target,
                                now,
                            ),
                            ..self
                        },
                    )
                }
            },
        }
    }
}

/// The memory `kept` after it took in `moved`, which says the same.
fn unite(kept: &MemoryRow, moved: &MemoryRow, now: &str) -> (r: MemoryRow)
    ensures
        r@ == united(kept@, moved@, now@),
{
    let content = merge_memory_content(&kept.content, &moved.content);
    let most: i64 = clamp(
        if kept.importance >= moved.importance {
            kept.importance
        } else {
            moved.importance
        },
        1,
        10,
    );
    let importance: i64 = if looks_low_value_memory(&content) || most >= 10 {
        most
    } else {
        most + 1
    };
    let mut row = kept.clone();
    row.normalized_content = normalize_for_match(&content);
    row.content = content;
    row.importance = importance;
    row.updated_at = now.to_owned();
    row.last_used_at = now.to_owned();
    row
}

impl Database {
    /// Makes a memory one for all conversations, or one for a single
    /// conversation, at `now`. A memory there that says the same takes it in.
    pub fn set_memory_scope_at(
        &mut self,
        memory_id: &str,
        make_global: bool,
        conversation_id: Option<&str>,
        now: &str,
    ) -> (r: Result<(), DbError>)
        ensures
            carried_out(
                r,
                old(self)@.rescoped(memory_id@, make_global, opt_str(conversation_id), now@),
                old(self)@,
                final(self)@,
            ),
    {
        let ghost rows = self@.memories;
        let at = match self.find_memory(memory_id) {
            Some(i) => i,
            None => {
                return Err(DbError::MemoryNotFound);
            },
        };
        proof {
            crate::table::lemma_first_where(rows, is_memory(memory_id@));
        }
        let m = self.memories[at].clone();
        assert(m@ == rows[at as int]);
        let old_conversation = filled_text(opt_ref(&m.conversation_id));
        let target = if make_global {
            None
        } else {
            match filled_text(conversation_id) {
                Some(id) => Some(id),
                None => copy_opt(&old_conversation),
            }
        };
        assert(opt_text(target) == target_conversation(
            m@,
            make_global,
            opt_str(conversation_id),
        ));
        if !make_global && target.is_none() {
            return Err(DbError::ConversationRequired);
        }
        let scope: &str = if make_global {
            "global"
        } else {
            "conversation"
        };
        if text_eq(normalize_memory_scope(&m.scope), scope) && same_opt(&old_conversation, &target) {
            return Ok(());
        }
        let norm = if blank(&m.normalized_content) {
            normalize_for_match(&m.content)
        } else {
            m.normalized_content.clone()
        };
        let ghost same = is_twin(m@, scope@, opt_text(target));
        let twin = find_row(
            &self.memories,
            |d: &MemoryRow| -> (r: bool)
                ensures
                    r == same(d@)
                {
                    !text_eq(&d.id, &m.id) && text_eq(&d.normalized_content, &norm) && text_eq(
                        &d.scope,
                        scope,
                    ) && same_opt(&d.conversation_id, &target)
                },
            Ghost(same),
        );
        match twin {
            Some(k) => {
                let row = unite(&self.memories[k], &m, now);
                let ghost next = rows.update(k as int, row@);
                self.memories.set(k, row);
                assert(views(self.memories@) =~= next);
                keep_rows(
                    &mut self.memories,
                    |d: &MemoryRow| -> (r: bool)
                        ensures
                            r == (d@.id != m@.id)
                        { !text_eq(&d.id, &m.id) },
                    Ghost(is_other_memory(m@.id)),
                );
            },
            None => {
                let mut row = m.clone();
                row.scope = scope.to_owned();
                row.conversation_id = target;
                row.updated_at = now.to_owned();
                row.last_used_at = now.to_owned();
                let ghost next = rows.update(at as int, row@);
                self.memories.set(at, row);
                assert(views(self.memories@) =~= next);
            },
        }
        Ok(())
    }

    /// Makes a memory one for all conversations, or one for a single
    /// conversation. A memory there that says the same takes it in.
    pub fn set_memory_scope(
        &mut self,
        memory_id: &str,
        make_global: bool,
        conversation_id: Option<&str>,
    ) -> (r: Result<(), DbError>)
        ensures
            exists|now: Seq<char>|
                is_time_text(now) && carried_out(
                    r,
                    #[trigger] old(self)@.rescoped(
                        memory_id@,
                        make_global,
                        opt_str(conversation_id),
                        now,
                    ),
                    old(self)@,
                    final(self)@,
                ),
    {
        let now = now_iso();
        self.set_memory_scope_at(memory_id, make_global, conversation_id, &now)
    }
}

// ---------------------------------------------------------------------------
// Fading
// ---------------------------------------------------------------------------

/// `s` without the spaces at both ends.
pub open spec fn unspaced(s: Seq<char>) -> Seq<char>
    decreases s.len(),
{
    if s.len() == 0 {
        s
    } else if s[0] == ' ' {
        unspaced(s.drop_first())
    } else if s.last() == ' ' {
        unspaced(s.drop_last())
    } else {
        s
    }
}

/// The number of characters without the spaces at both ends, as SQLite counts
/// them: up to the first that is zero.
pub open spec fn filled_length(s: Seq<char>) -> int {
    before_nul(unspaced(s)).len() as int
}

/// The words of assent and thanks that fade at once.
pub open spec fn fading_words() -> Seq<Seq<char>> {
    seq!["ok"@, "yes"@, "fine"@, "嗯"@, "好的"@, "谢谢"@, "收到"@, "知道了"@]
}

/// The memory says too little to be kept for long.
pub open spec fn is_faint(m: MemoryRow<Seq<char>>) -> bool {
    filled_length(m.content) < 8 || fading_words().contains(m.normalized_content)
}

/// A day in milliseconds.
pub const DAY_MS: i64 = 86_400_000;

/// More than this many days have passed; never where the time is not known.
pub open spec fn older_than(age_ms: Option<i64>, days: int) -> bool {
    match age_ms {
        Some(ms) => ms > days * DAY_MS,
        None => false,
    }
}

/// A step less important, at `now`.
pub open spec fn lowered(m: MemoryRow<Seq<char>>, now: Seq<char>) -> MemoryRow<Seq<char>> {
    MemoryRow { importance: (m.importance - 1) as i64, updated_at: now, ..m }
}

/// A memory after it faded at `now`: a step where it says little, and a step
/// where it was not used for forty-five days.
pub open spec fn faded(m: MemoryRow<Seq<char>>, age_ms: Option<i64>, now: Seq<char>) -> MemoryRow<
    Seq<char>,
> {
    let a = if m.importance > 1 && is_faint(m) {
        lowered(m, now)
    } else {
        m
    };
    if a.importance > 2 && older_than(age_ms, 45) {
        lowered(a, now)
    } else {
        a
    }
}

/// A memory of no importance that was not used for half a year is forgotten.
pub open spec fn is_forgotten(m: MemoryRow<Seq<char>>, age_ms: Option<i64>) -> bool {
    m.importance <= 1 && older_than(age_ms, 180)
}

/// The age of the row `i`, where it is known.
pub open spec fn age_of(ages: Seq<Option<i64>>, i: int) -> Option<i64> {
    if 0 <= i < ages.len() {
        ages[i]
    } else {
        None
    }
}

/// The memories after all of them faded at `now`; `ages` holds the time since
/// each was last used.
pub open spec fn all_faded(
    rows: Seq<MemoryRow<Seq<char>>>,
    ages: Seq<Option<i64>>,
    now: Seq<char>,
) -> Seq<MemoryRow<Seq<char>>>
    decreases rows.len(),
{
    if rows.len() == 0 {
        rows
    } else {
        let age = age_of(ages, rows.len() - 1);
        let last = faded(rows.last(), age, now);
        let before = all_faded(rows.drop_last(), ages, now);
        if is_forgotten(last, age) {
            before
        } else {
            before.push(last)
        }
    }
}

/// The number of characters without the spaces at both ends, up to the first
/// that is zero.
fn count_filled(s: &str) -> (n: usize)
    ensures
        n == filled_length(s@),
{
    let v = chars_of(s);
    let mut from: usize = 0;
    let mut to: usize = v.len();
    assert(v@.subrange(0, v@.len() as int) =~= v@);
    while from < to && v[from] == ' '
        invariant
            from <= to == v.len(),
            unspaced(v@.subrange(from as int, to as int)) == unspaced(v@),
        decreases to - from,
    {
        assert(v@.subrange(from as int, to as int).drop_first() =~= v@.subrange(
            from + 1,
            to as int,
        ));
        from = from + 1;
    }
    while from < to && v[to - 1] == ' '
        invariant
            from <= to <= v.len(),
            from < to ==> v[from as int] != ' ',
            unspaced(v@.subrange(from as int, to as int)) == unspaced(v@),
        decreases to - from,
    {
        assert(v@.subrange(from as int, to as int).drop_last() =~= v@.subrange(
            from as int,
            to - 1,
        ));
        to = to - 1;
    }
    cut_at_nul(&sub_chars(&v, from, to)).len()
}

/// The memory says too little to be kept for long.
pub fn looks_faint(m: &MemoryRow) -> (r: bool)
    ensures
        r == is_faint(m@),
{
    if count_filled(&m.content) < 8 {
        return true;
    }
    let list: [&str; 8] = ["ok", "yes", "fine", "嗯", "好的", "谢谢", "收到", "知道了"];
    let ghost all = fading_words();
    for i in 0..list.len()
        invariant
            all == fading_words(),
            forall|k: int| 0 <= k < 8 ==> (#[trigger] list[k])@ == all[k],
            forall|k: int| 0 <= k < i ==> #[trigger] all[k] != m@.normalized_content,
    {
        if text_eq(list[i], &m.normalized_content) {
            assert(all[i as int] == m@.normalized_content);
            return true;
        }
    }
    false
}

/// More than this many days have passed; never where the time is not known.
fn is_older(age_ms: Option<i64>, days: i64) -> (r: bool)
    requires
        0 <= days <= 1000,
    ensures
        r == older_than(age_ms, days as int),
{
    match age_ms {
        Some(ms) => ms > days * DAY_MS,
        None => false,
    }
}

/// A memory after it faded at `now`.
pub fn fade(m: &MemoryRow, age_ms: Option<i64>, now: &str) -> (r: MemoryRow)
    ensures
        r@ == faded(m@, age_ms, now@),
{
    let mut row = m.clone();
    if row.importance > 1 && looks_faint(m) {
        row.importance = row.importance - 1;
        row.updated_at = now.to_owned();
    }
    if row.importance > 2 && is_older(age_ms, 45) {
        row.importance = row.importance - 1;
        row.updated_at = now.to_owned();
    }
    row
}

impl Database {
    /// Lets all memories fade at `now`; `ages` holds the milliseconds since
    /// each was last used, where they are known.
    pub fn decay_memories_at(&mut self, ages: &Vec<Option<i64>>, now: &str)
        ensures
            final(self)@ == (Tables {
                memories: all_faded(old(self)@.memories, ages@, now@),
                ..old(self)@
            }),
    {
        let ghost all = self@.memories;
        let mut kept: Vec<MemoryRow> = Vec::new();
        assert(views(kept@) =~= all.take(0));
        for i in 0..self.memories.len()
            invariant
                all == views(self.memories@),
                views(kept@) == all_faded(all.take(i as int), ages@, now@),
        {
            assert(all.take(i + 1).drop_last() =~= all.take(i as int));
            let age: Option<i64> = if i < ages.len() {
                ages[i]
            } else {
                None
            };
            let row = fade(&self.memories[i], age, now);
            if !(row.importance <= 1 && is_older(age, 180)) {
                let ghost next = views(kept@).push(row@);
                kept.push(row);
                assert(views(kept@) =~= next);
            }
        }
        assert(all.take(all.len() as int) =~= all);
        self.memories = kept;
    }

    /// Lets all memories fade; `ages` holds the milliseconds since each was
    /// last used, where they are known.
    pub fn decay_memories(&mut self, ages: &Vec<Option<i64>>)
        ensures
            exists|now: Seq<char>|
                is_time_text(now) && final(self)@ == (Tables {
                    memories: #[trigger] all_faded(old(self)@.memories, ages@, now),
                    ..old(self)@
                }),
    {
        let now = now_iso();
        self.decay_memories_at(ages, &now)
    }
}

// ---------------------------------------------------------------------------
// Laws
// ---------------------------------------------------------------------------

/// Where the move of a memory is not refused, it lives where it was moved to,
/// or another memory there took it in.
pub proof fn law_moved_memory_lives_there(
    t: Tables,
    memory_id: Seq<char>,
    make_global: bool,
    conversation_id: Option<Seq<char>>,
    now: Seq<char>,
    i: int,
)
    requires
        distinct(t.memories, memory_key()),
    ensures
        match t.rescoped(memory_id, make_global, conversation_id, now) {
            Ok(u) => 0 <= i < u.memories.len() && u.memories[i].id == memory_id ==> {
                &&& scope_name(u.memories[i].scope) == target_scope(make_global)
                &&& make_global ==> filled(u.memories[i].conversation_id) is None
                &&& !make_global ==> filled(u.memories[i].conversation_id) is Some
                &&& !make_global && filled(conversation_id) is Some ==> filled(
                    u.memories[i].conversation_id,
                ) == filled(conversation_id)
            },
            Err(e) => e == DbError::MemoryNotFound || e == DbError::ConversationRequired,
        },
{
    let rows = t.memories;
    lemma_first_where(rows, is_memory(memory_id));
    match first_where(rows, is_memory(memory_id)) {
        None => {},
        Some(at) => {
            let m = rows[at];
            let target = target_conversation(m, make_global, conversation_id);
            let scope = target_scope(make_global);
            lemma_filled_again(conversation_id);
            lemma_filled_again(m.conversation_id);
            lemma_scope_names();
            match t.rescoped(memory_id, make_global, conversation_id, now) {
                Ok(u) => {
                    if 0 <= i < u.memories.len() && u.memories[i].id == memory_id {
                        lemma_moved(rows, at, scope, target, now, i);
                    }
                },
                Err(_) => {},
            }
        },
    }
}

proof fn lemma_filled_again(s: Option<Seq<char>>)
    ensures
        filled(filled(s)) == filled(s),
{
    match s {
        Some(t) => {
            law_trimmed_stays(t);
        },
        None => {},
    }
}

proof fn lemma_scope_names()
    ensures
        scope_name("global"@) == "global"@,
        scope_name("conversation"@) == "conversation"@,
        "global"@ != "conversation"@,
{
    reveal_strlit("global");
    reveal_strlit("conversation");
    assert("global"@.len() != "conversation"@.len());
    assert(trimmed("global"@) == "global"@);
    assert(trimmed("conversation"@) == "conversation"@);
    assert(crate::text::ascii_lowered("global"@) =~= "global"@);
    assert(crate::text::ascii_lowered("conversation"@) =~= "conversation"@);
}

/// Where a memory with this identifier is left, it is the one that was moved.
proof fn lemma_moved(
    rows: Seq<MemoryRow<Seq<char>>>,
    at: int,
    scope: Seq<char>,
    target: Option<Seq<char>>,
    now: Seq<char>,
    i: int,
)
    requires
        distinct(rows, memory_key()),
        0 <= at < rows.len(),
        0 <= i < moved(rows, at, scope, target, now).len(),
        moved(rows, at, scope, target, now)[i].id == rows[at].id,
    ensures
        ({
            let x = moved(rows, at, scope, target, now)[i];
            ||| x.scope == scope && x.conversation_id == target
            ||| scope_name(x.scope) == scope && filled(x.conversation_id) == target
        }),
{
    let m = rows[at];
    let after = moved(rows, at, scope, target, now);
    if scope_name(m.scope) == scope && filled(m.conversation_id) == target {
        if i < at {
            assert(memory_key()(rows[i]) != memory_key()(rows[at]));
        } else if at < i {
            assert(memory_key()(rows[at]) != memory_key()(rows[i]));
        }
    } else {
        match first_where(rows, is_twin(m, scope, target)) {
            Some(k) => {
                let u = rows.update(k, united(rows[k], m, now));
                let j = lemma_filter_member(u, is_other_memory(m.id), i);
            },
            None => {
                if i < at {
                    assert(after[i] == rows[i]);
                    assert(memory_key()(rows[i]) != memory_key()(rows[at]));
                } else if at < i {
                    assert(after[i] == rows[i]);
                    assert(memory_key()(rows[at]) != memory_key()(rows[i]));
                }
            },
        }
    }
}

} // verus!
