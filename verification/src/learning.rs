//! What is learned from what the user says, and how old messages are
//! summarised.
use vstd::prelude::*;
use crate::db::memories::{note_of, Note};
use crate::db::soundness::{
    law_notes_are_weighted, law_sound_profiles, law_sound_remembered, law_sound_with_summary,
};
use crate::db::{carried_out, Database, DbError, Tables};
use crate::memory::{candidates, candidates_of, Candidate};
use crate::profile::{
    law_style_after_twice, law_user_after_twice, style_after, update_style_profile,
    update_user_profile, user_after,
};
use crate::summary::{SUMMARY_SCAN_LIMIT, plan_segments, segments_of, Segment};
use crate::models::{Message, StyleProfile, SummaryRow, UserProfile};
use crate::sorting::views;
use crate::stamps::{are_drawn, fresh_id, is_time_text, now_iso, Draw};
use crate::text::{
    flatten_spaces, flattened, is_blank, is_space, lowercase, opt_str, pieces, trim, trimmed, words,
};

verus! {

// ---------------------------------------------------------------------------
// Profiles
// ---------------------------------------------------------------------------

impl Tables {
    /// What is stored after the profiles took in a message, which is `text`
    /// with single blanks and `lower` in lower case.
    pub open spec fn profiled(
        self,
        text: Seq<char>,
        lower: Seq<char>,
        user_now: Seq<char>,
        style_now: Seq<char>,
    ) -> Tables {
        let user = user_after(text, lower, self.user(user_now));
        let style = style_after(text, lower, self.style(style_now));
        let t = if user.1 {
            self.with_user(user.0, user_now)
        } else {
            self
        };
        if style.1 {
            t.with_style(style.0, style_now)
        } else {
            t
        }
    }

    /// What is stored after the profiles took in what the user says.
    pub open spec fn taught(
        self,
        user_text: Seq<char>,
        user_now: Seq<char>,
        style_now: Seq<char>,
    ) -> Tables {
        let text = flattened(trimmed(user_text));
        if text.len() == 0 {
            self
        } else {
            self.profiled(text, lowercase(text), user_now, style_now)
        }
    }
}

/// Takes a message, which is `text` with single blanks and `lower` in lower
/// case, into the profiles.
pub fn teach_profiles(db: &mut Database, text: &str, lower: &str, user_now: &str, style_now: &str)
    ensures
        final(db)@ == old(db)@.profiled(text@, lower@, user_now@, style_now@),
{
    let (user, user_changed) = update_user_profile(text, lower, db.user_profile_at(user_now));
    let (style, style_changed) = update_style_profile(text, lower, db.style_profile_at(style_now));
    if user_changed {
        db.save_user_profile_at(&user, user_now);
    }
    if style_changed {
        db.save_style_profile_at(&style, style_now);
    }
}

/// Takes what the user says into the profiles.
pub fn update_profiles_from_user_text(db: &mut Database, user_text: &str)
    ensures
        exists|user_now: Seq<char>, style_now: Seq<char>|
            is_time_text(user_now) && is_time_text(style_now) && final(db)@
                == #[trigger] old(db)@.taught(user_text@, user_now, style_now),
{
    let user_now = now_iso();
    let style_now = now_iso();
    let text = flatten_spaces(&trim(user_text));
    if !text.as_str().is_empty() {
        let lower = text.to_lowercase();
        teach_profiles(db, &text, &lower, &user_now, &style_now);
    }
    assert(db@ == old(db)@.taught(user_text@, user_now@, style_now@));
}

// ---------------------------------------------------------------------------
// Memories
// ---------------------------------------------------------------------------

/// What is to be remembered of a candidate.
pub open spec fn note_for(
    c: Candidate<Seq<char>>,
    conversation_id: Option<Seq<char>>,
    source_message_id: Option<Seq<char>>,
) -> Option<Note<Seq<char>>> {
    if c.global {
        note_of(
            c.content,
            c.importance,
            "global"@,
            None,
            source_message_id,
            conversation_id,
        )
    } else {
        note_of(
            c.content,
            c.importance,
            "conversation"@,
            conversation_id,
            source_message_id,
            conversation_id,
        )
    }
}

/// What came of storing: what is stored, and the refusal that ended it.
#[verifier::ext_equal]
pub struct Stored {
    pub tables: Tables,
    pub error: Option<DbError>,
}

impl Tables {
    /// What came of remembering candidates, each with its draw; it ends where
    /// one is refused.
    pub open spec fn all_remembered(
        self,
        list: Seq<Candidate<Seq<char>>>,
        conversation_id: Option<Seq<char>>,
        source_message_id: Option<Seq<char>>,
        draws: Seq<Draw>,
    ) -> Stored
        decreases list.len(),
    {
        if list.len() == 0 {
            Stored { tables: self, error: None }
        } else {
            let before = self.all_remembered(
                list.drop_last(),
                conversation_id,
                source_message_id,
                draws,
            );
            let draw = draws[list.len() - 1];
            if before.error is Some {
                before
            } else {
                match before.tables.remembered(
                    note_for(list.last(), conversation_id, source_message_id),
                    draw.id,
                    draw.now,
                ) {
                    Ok(t) => Stored { tables: t, error: None },
                    Err(e) => Stored { error: Some(e), ..before },
                }
            }
        }
    }
}

proof fn lemma_remembered_first_draws(
    t: Tables,
    list: Seq<Candidate<Seq<char>>>,
    conversation_id: Option<Seq<char>>,
    source_message_id: Option<Seq<char>>,
    draws: Seq<Draw>,
    more: Seq<Draw>,
)
    requires
        list.len() <= draws.len() <= more.len(),
        forall|i: int| 0 <= i < draws.len() ==> draws[i] == more[i],
    ensures
        t.all_remembered(list, conversation_id, source_message_id, draws) == t.all_remembered(
            list,
            conversation_id,
            source_message_id,
            more,
        ),
    decreases list.len(),
{
    if list.len() > 0 {
        lemma_remembered_first_draws(
            t,
            list.drop_last(),
            conversation_id,
            source_message_id,
            draws,
            more,
        );
    }
}

proof fn lemma_remembered_stops(
    t: Tables,
    list: Seq<Candidate<Seq<char>>>,
    conversation_id: Option<Seq<char>>,
    source_message_id: Option<Seq<char>>,
    draws: Seq<Draw>,
    k: int,
)
    requires
        0 <= k <= list.len(),
        t.all_remembered(list.take(k), conversation_id, source_message_id, draws).error is Some,
    ensures
        t.all_remembered(list, conversation_id, source_message_id, draws) == t.all_remembered(
            list.take(k),
            conversation_id,
            source_message_id,
            draws,
        ),
    decreases list.len() - k,
{
    if k == list.len() {
        assert(list.take(k) =~= list);
    } else {
        assert(list.take(k + 1).drop_last() =~= list.take(k));
        lemma_remembered_stops(t, list, conversation_id, source_message_id, draws, k + 1);
    }
}

/// Remembers a candidate at `now`; a new memory gets the identifier `id`.
pub fn remember_candidate(
    db: &mut Database,
    c: &Candidate,
    conversation_id: Option<&str>,
    source_message_id: Option<&str>,
    id: &str,
    now: &str,
) -> (r: Result<(), DbError>)
    ensures
        carried_out(
            r,
            old(db)@.remembered(
                note_for(c@, opt_str(conversation_id), opt_str(source_message_id)),
                id@,
                now@,
            ),
            old(db)@,
            final(db)@,
        ),
{
    if c.global {
        db.upsert_memory_at(
            &c.content,
            c.importance,
            "global",
            None,
            source_message_id,
            conversation_id,
            id,
            now,
        )
    } else {
        db.upsert_memory_at(
            &c.content,
            c.importance,
            "conversation",
            conversation_id,
            source_message_id,
            conversation_id,
            id,
            now,
        )
    }
}

/// Remembers candidates until one is refused.
pub fn remember_all(
    db: &mut Database,
    list: &Vec<Candidate>,
    conversation_id: Option<&str>,
    source_message_id: Option<&str>,
) -> (r: Result<(), DbError>)
    ensures
        exists|draws: Seq<Draw>|
            draws.len() == list@.len() && are_drawn(draws) && #[trigger] old(db)@.all_remembered(
                views(list@),
                opt_str(conversation_id),
                opt_str(source_message_id),
                draws,
            ) == (Stored {
                tables: final(db)@,
                error: match r {
                    Ok(_) => None,
                    Err(e) => Some(e),
                },
            }),
{
    let ghost before = db@;
    let ghost all = views(list@);
    let ghost conv = opt_str(conversation_id);
    let ghost msg = opt_str(source_message_id);
    let ghost mut draws: Seq<Draw> = Seq::empty();
    assert(all.take(0) =~= Seq::empty());
    for i in 0..list.len()
        invariant
            before == old(db)@,
            all == views(list@),
            conv == opt_str(conversation_id),
            msg == opt_str(source_message_id),
            draws.len() == i,
            are_drawn(draws),
            before.all_remembered(all.take(i as int), conv, msg, draws) == (Stored {
                tables: db@,
                error: None,
            }),
    {
        let id = fresh_id();
        let now = now_iso();
        let ghost had = draws;
        proof {
            draws = draws.push(Draw { id: id@, now: now@ });
            assert(all.take(i + 1).drop_last() =~= all.take(i as int));
            lemma_remembered_first_draws(before, all.take(i as int), conv, msg, had, draws);
            assert(all[i as int] == list@[i as int]@);
        }
        let r = remember_candidate(db, &list[i], conversation_id, source_message_id, &id, &now);
        if let Err(e) = r {
            proof {
                let rest = Seq::new(
                    (all.len() - draws.len()) as nat,
                    |k: int| Draw { id: id@, now: now@ },
                );
                let full = draws + rest;
                lemma_remembered_first_draws(before, all.take(i + 1), conv, msg, draws, full);
                lemma_remembered_stops(before, all, conv, msg, full, i + 1);
                assert(are_drawn(full));
            }
            return Err(e);
        }
    }
    assert(all.take(all.len() as int) =~= all);
    Ok(())
}

/// Remembers what a message asks to be remembered. Where it gave anything, all
/// memories are to fade afterwards: then the result is `true`.
pub fn maybe_extract_memories(
    db: &mut Database,
    conversation_id: Option<&str>,
    source_message_id: Option<&str>,
    user_text: &str,
) -> (r: Result<bool, DbError>)
    ensures
        ({
            let text = trimmed(user_text@);
            let list = candidates_of(text, lowercase(text));
            exists|draws: Seq<Draw>|
                draws.len() == list.len() && are_drawn(draws) && #[trigger] old(
                    db,
                )@.all_remembered(
                    list,
                    opt_str(conversation_id),
                    opt_str(source_message_id),
                    draws,
                ) == (Stored {
                    tables: final(db)@,
                    error: match r {
                        Ok(_) => None,
                        Err(e) => Some(e),
                    },
                })
        }),
        r is Ok ==> r->Ok_0 == (candidates_of(
            trimmed(user_text@),
            lowercase(trimmed(user_text@)),
        ).len() > 0),
{
    let text = trim(user_text);
    let lower = text.to_lowercase();
    let list = candidates(&text, &lower);
    match remember_all(db, &list, conversation_id, source_message_id) {
        Ok(_) => Ok(list.len() > 0),
        Err(e) => Err(e),
    }
}

// ---------------------------------------------------------------------------
// Summaries
// ---------------------------------------------------------------------------

/// The summary row of a segment of pending messages.
pub open spec fn segment_row(
    t: Tables,
    conversation_id: Seq<char>,
    pending: Seq<Message<Seq<char>>>,
    s: Segment<Seq<char>>,
    draw: Draw,
) -> SummaryRow<Seq<char>> {
    let first = pending[s.start as int];
    let last = pending[s.start + s.count - 1];
    t.next_summary(
        conversation_id,
        s.summary,
        first.id,
        last.id,
        first.created_at,
        last.created_at,
        s.count as i64,
        draw.id,
        draw.now,
    )
}

impl Tables {
    /// What came of storing the summaries of segments of pending messages, each
    /// with its draw; it ends where one is refused.
    pub open spec fn summarised(
        self,
        conversation_id: Seq<char>,
        pending: Seq<Message<Seq<char>>>,
        segments: Seq<Segment<Seq<char>>>,
        draws: Seq<Draw>,
    ) -> Stored
        decreases segments.len(),
    {
        if segments.len() == 0 {
            Stored { tables: self, error: None }
        } else {
            let before = self.summarised(conversation_id, pending, segments.drop_last(), draws);
            if before.error is Some {
                before
            } else {
                match before.tables.with_summary(
                    segment_row(
                        before.tables,
                        conversation_id,
                        pending,
                        segments.last(),
                        draws[segments.len() - 1],
                    ),
                ) {
                    Ok(t) => Stored { tables: t, error: None },
                    Err(e) => Stored { error: Some(e), ..before },
                }
            }
        }
    }

    /// The messages of a conversation that no summary covers yet.
    pub open spec fn unsummarised(self, conversation_id: Seq<char>) -> Seq<Message<Seq<char>>> {
        self.messages_after(
            conversation_id,
            crate::db::messages::marker_of(self.summarised_until(conversation_id)),
            SUMMARY_SCAN_LIMIT as int,
        )
    }
}

proof fn lemma_summarised_first_draws(
    t: Tables,
    conversation_id: Seq<char>,
    pending: Seq<Message<Seq<char>>>,
    segments: Seq<Segment<Seq<char>>>,
    draws: Seq<Draw>,
    more: Seq<Draw>,
)
    requires
        segments.len() <= draws.len() <= more.len(),
        forall|i: int| 0 <= i < draws.len() ==> draws[i] == more[i],
    ensures
        t.summarised(conversation_id, pending, segments, draws) == t.summarised(
            conversation_id,
            pending,
            segments,
            more,
        ),
    decreases segments.len(),
{
    if segments.len() > 0 {
        lemma_summarised_first_draws(
            t,
            conversation_id,
            pending,
            segments.drop_last(),
            draws,
            more,
        );
    }
}

proof fn lemma_summarised_stops(
    t: Tables,
    conversation_id: Seq<char>,
    pending: Seq<Message<Seq<char>>>,
    segments: Seq<Segment<Seq<char>>>,
    draws: Seq<Draw>,
    k: int,
)
    requires
        0 <= k <= segments.len(),
        t.summarised(conversation_id, pending, segments.take(k), draws).error is Some,
    ensures
        t.summarised(conversation_id, pending, segments, draws) == t.summarised(
            conversation_id,
            pending,
            segments.take(k),
            draws,
        ),
    decreases segments.len() - k,
{
    if k == segments.len() {
        assert(segments.take(k) =~= segments);
    } else {
        assert(segments.take(k + 1).drop_last() =~= segments.take(k));
        lemma_summarised_stops(t, conversation_id, pending, segments, draws, k + 1);
    }
}

/// Stores the summaries of segments of pending messages until one is refused.
pub fn store_segments(
    db: &mut Database,
    conversation_id: &str,
    pending: &Vec<Message>,
    segments: &Vec<Segment>,
) -> (r: Result<(), DbError>)
    requires
        forall|i: int|
            0 <= i < segments@.len() ==> 0 < (#[trigger] segments@[i]).count <= 18
                && segments@[i].start + segments@[i].count <= pending@.len(),
    ensures
        exists|draws: Seq<Draw>|
            draws.len() == segments@.len() && are_drawn(draws) && #[trigger] old(db)@.summarised(
                conversation_id@,
                views(pending@),
                views(segments@),
                draws,
            ) == (Stored {
                tables: final(db)@,
                error: match r {
                    Ok(_) => None,
                    Err(e) => Some(e),
                },
            }),
{
    let ghost before = db@;
    let ghost all = views(segments@);
    let ghost items = views(pending@);
    let ghost mut draws: Seq<Draw> = Seq::empty();
    let n: usize = pending.len();
    assert(all.take(0) =~= Seq::empty());
    for i in 0..segments.len()
        invariant
            n == pending@.len(),
            forall|i: int|
                0 <= i < segments@.len() ==> 0 < (#[trigger] segments@[i]).count <= 18
                    && segments@[i].start + segments@[i].count <= pending@.len(),
            before == old(db)@,
            all == views(segments@),
            items == views(pending@),
            draws.len() == i,
            are_drawn(draws),
            before.summarised(conversation_id@, items, all.take(i as int), draws) == (Stored {
                tables: db@,
                error: None,
            }),
    {
        let id = fresh_id();
        let now = now_iso();
        let ghost had = draws;
        proof {
            draws = draws.push(Draw { id: id@, now: now@ });
            assert(all.take(i + 1).drop_last() =~= all.take(i as int));
            lemma_summarised_first_draws(
                before,
                conversation_id@,
                items,
                all.take(i as int),
                had,
                draws,
            );
            assert(all[i as int] == segments@[i as int]@);
        }
        let s = &segments[i];
        let first = &pending[s.start];
        let last = &pending[s.start + (s.count - 1)];
        assert(items[s.start as int] == first@);
        assert(items[s.start + s.count - 1] == last@);
        let r = db.append_summary_segment_at(
            conversation_id,
            &s.summary,
            &first.id,
            &last.id,
            &first.created_at,
            &last.created_at,
            s.count as i64,
            &id,
            &now,
        );
        if let Err(e) = r {
            proof {
                let rest = Seq::new(
                    (all.len() - draws.len()) as nat,
                    |k: int| Draw { id: id@, now: now@ },
                );
                let full = draws + rest;
                lemma_summarised_first_draws(
                    before,
                    conversation_id@,
                    items,
                    all.take(i + 1),
                    draws,
                    full,
                );
                lemma_summarised_stops(before, conversation_id@, items, all, full, i + 1);
                assert(are_drawn(full));
            }
            return Err(e);
        }
    }
    assert(all.take(all.len() as int) =~= all);
    Ok(())
}

/// Summarises the old messages of a conversation that no summary covers yet.
pub fn maybe_update_summary(db: &mut Database, conversation_id: &str) -> (r: Result<(), DbError>)
    ensures
        ({
            let pending = old(db)@.unsummarised(conversation_id@);
            exists|draws: Seq<Draw>|
                draws.len() == segments_of(pending).len() && are_drawn(draws) && #[trigger] old(
                    db,
                )@.summarised(conversation_id@, pending, segments_of(pending), draws) == (Stored {
                    tables: final(db)@,
                    error: match r {
                        Ok(_) => None,
                        Err(e) => Some(e),
                    },
                })
        }),
{
    let marker = db.latest_summary_end_created_at(conversation_id);
    let after = match &marker {
        Some(m) => Some(m.as_str()),
        None => None,
    };
    let pending = db.list_messages_after(conversation_id, after, SUMMARY_SCAN_LIMIT);
    let segments = plan_segments(&pending);
    proof {
        crate::summary::law_segments(views(pending@));
        assert forall|i: int| 0 <= i < segments@.len() implies 0 < (#[trigger] segments@[i]).count
            <= 18 && segments@[i].start + segments@[i].count <= pending@.len() by {
            assert(views(segments@)[i] == segments@[i]@);
        }
    }
    assert(views(pending@) == old(db)@.unsummarised(conversation_id@));
    let r = store_segments(db, conversation_id, &pending, &segments);
    assert(views(segments@) == segments_of(old(db)@.unsummarised(conversation_id@)));
    r
}

// ---------------------------------------------------------------------------
// Laws
// ---------------------------------------------------------------------------

/// Learning from a message keeps what every operation keeps.
pub proof fn law_learning_keeps_soundness(
    t: Tables,
    list: Seq<Candidate<Seq<char>>>,
    conversation_id: Option<Seq<char>>,
    source_message_id: Option<Seq<char>>,
    draws: Seq<Draw>,
)
    requires
        t.sound(),
    ensures
        t.all_remembered(list, conversation_id, source_message_id, draws).tables.sound(),
    decreases list.len(),
{
    if list.len() > 0 {
        law_learning_keeps_soundness(
            t,
            list.drop_last(),
            conversation_id,
            source_message_id,
            draws,
        );
        let before = t.all_remembered(
            list.drop_last(),
            conversation_id,
            source_message_id,
            draws,
        );
        let c = list.last();
        let draw = draws[list.len() - 1];
        law_notes_are_weighted(
            c.content,
            c.importance,
            "global"@,
            None,
            source_message_id,
            conversation_id,
        );
        law_notes_are_weighted(
            c.content,
            c.importance,
            "conversation"@,
            conversation_id,
            source_message_id,
            conversation_id,
        );
        law_sound_remembered(
            before.tables,
            note_for(c, conversation_id, source_message_id),
            draw.id,
            draw.now,
        );
    }
}

/// Taking a message into the profiles keeps what every operation keeps, and
/// changes nothing but the profiles.
pub proof fn law_teaching_keeps_soundness(
    t: Tables,
    user_text: Seq<char>,
    user_now: Seq<char>,
    style_now: Seq<char>,
)
    requires
        t.sound(),
    ensures
        t.taught(user_text, user_now, style_now).sound(),
        t.taught(user_text, user_now, style_now) == (Tables {
            user_profile: t.taught(user_text, user_now, style_now).user_profile,
            style_profile: t.taught(user_text, user_now, style_now).style_profile,
            ..t
        }),
{
    let text = flattened(trimmed(user_text));
    if text.len() > 0 {
        let lower = lowercase(text);
        let user = user_after(text, lower, t.user(user_now));
        let style = style_after(text, lower, t.style(style_now));
        law_sound_profiles(t, user.0, style.0, user_now);
        law_sound_profiles(t, user.0, style.0, style_now);
        law_sound_profiles(t.with_user(user.0, user_now), user.0, style.0, style_now);
    }
}

/// The same tables but for the times at which the profiles were changed.
pub open spec fn same_but_profile_times(a: Tables, b: Tables) -> bool {
    &&& a == (Tables { user_profile: a.user_profile, style_profile: a.style_profile, ..b })
    &&& match (a.user_profile, b.user_profile) {
        (Some(x), Some(y)) => x == (UserProfile { updated_at: x.updated_at, ..y }),
        (None, None) => true,
        _ => false,
    }
    &&& match (a.style_profile, b.style_profile) {
        (Some(x), Some(y)) => x == (StyleProfile { updated_at: x.updated_at, ..y }),
        (None, None) => true,
        _ => false,
    }
}

/// Taking the same message into the profiles twice leaves what taking it once
/// does, but for the times of change; a blank message changes nothing.
pub proof fn law_teaching_twice(
    t: Tables,
    user_text: Seq<char>,
    user_now: Seq<char>,
    style_now: Seq<char>,
    user_again: Seq<char>,
    style_again: Seq<char>,
)
    ensures
        same_but_profile_times(
            t.taught(user_text, user_now, style_now).taught(user_text, user_again, style_again),
            t.taught(user_text, user_now, style_now),
        ),
        is_blank(user_text) ==> t.taught(user_text, user_now, style_now) == t,
{
    let text = flattened(trimmed(user_text));
    let lower = lowercase(text);
    if is_blank(user_text) {
        assert(trimmed(user_text) =~= Seq::empty());
        reveal_with_fuel(Seq::filter, 2);
        let all = pieces(trimmed(user_text), is_space());
        assert(all.drop_last() =~= Seq::empty());
        assert(words(trimmed(user_text)) =~= Seq::empty());
    }
    if text.len() > 0 {
        let once = t.taught(user_text, user_now, style_now);
        let u = t.user(user_now);
        let p = t.style(style_now);
        law_user_after_twice(text, lower, u, user_now);
        law_style_after_twice(text, lower, p, style_now);
        if !user_after(text, lower, u).1 && t.user_profile is None {
            lemma_user_dates(text, lower, u, user_again);
            assert(once.user(user_again) == (UserProfile { updated_at: user_again, ..u }));
        }
        if !style_after(text, lower, p).1 && t.style_profile is None {
            lemma_style_dates(text, lower, p, style_again);
            assert(once.style(style_again) == (StyleProfile { updated_at: style_again, ..p }));
        }
    }
}

/// When a profile was changed has no part in what a message changes.
proof fn lemma_user_dates(
    text: Seq<char>,
    lower: Seq<char>,
    u: UserProfile<Seq<char>>,
    now: Seq<char>,
)
    ensures
        ({
            let dated = UserProfile { updated_at: now, ..u };
            user_after(text, lower, dated).1 == user_after(text, lower, u).1
        }),
{
}

/// When a profile was changed has no part in what a message changes.
proof fn lemma_style_dates(
    text: Seq<char>,
    lower: Seq<char>,
    p: StyleProfile<Seq<char>>,
    now: Seq<char>,
)
    ensures
        ({
            let dated = StyleProfile { updated_at: now, ..p };
            style_after(text, lower, dated).1 == style_after(text, lower, p).1
        }),
{
}

/// Summarising keeps what every operation keeps, and changes nothing but the
/// summaries.
pub proof fn law_summarising_keeps_soundness(
    t: Tables,
    conversation_id: Seq<char>,
    pending: Seq<Message<Seq<char>>>,
    segments: Seq<Segment<Seq<char>>>,
    draws: Seq<Draw>,
)
    requires
        t.sound(),
    ensures
        ({
            let u = t.summarised(conversation_id, pending, segments, draws).tables;
            u.sound() && u == (Tables { summaries: u.summaries, ..t })
        }),
    decreases segments.len(),
{
    if segments.len() > 0 {
        law_summarising_keeps_soundness(
            t,
            conversation_id,
            pending,
            segments.drop_last(),
            draws,
        );
        let before = t.summarised(conversation_id, pending, segments.drop_last(), draws);
        law_sound_with_summary(
            before.tables,
            segment_row(
                before.tables,
                conversation_id,
                pending,
                segments.last(),
                draws[segments.len() - 1],
            ),
        );
    }
}

} // verus!
