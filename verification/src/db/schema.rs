//! Bringing an old database up to date, and what a database holds when the
//! program starts.
use vstd::prelude::*;
use crate::backup::{backup_name, migration_backup_name, migration_beginning};
use crate::db::chat_settings::{first_settings, law_setting_reads_back};
use crate::db::order_laws::law_numbering_twice_is_once;
use crate::db::ordering::numbered;
use crate::db::soundness::{conversation_key, distinct};
use crate::db::{Database, DbError, Tables};
use crate::json::texts_json;
use crate::models::{ConversationRow, MemoryRow, SummaryRow};
use crate::numbers::{decimal, show_i64};
use crate::settings::default_model_names;
use crate::sorting::views;
use crate::stamps::{is_stamp, is_time_text, now_iso};
use crate::table::{find_row, first_where, lemma_first_where};
use crate::text::{
    blank, eq_ignore_ascii_case, is_blank, same_ignoring_ascii_case, text_eq, texts,
};

verus! {

/// The version of the schema that the program works with.
pub const LATEST_SCHEMA_VERSION: i64 = 12;

// ---------------------------------------------------------------------------
// Versions
// ---------------------------------------------------------------------------

/// The versions that a database still has to be brought to, in their order.
pub open spec fn versions_after(current: int) -> Seq<i64> {
    if current >= LATEST_SCHEMA_VERSION {
        Seq::empty()
    } else {
        Seq::new(
            (LATEST_SCHEMA_VERSION - current) as nat,
            |i: int| (current + 1 + i) as i64,
        )
    }
}

/// The versions that a database still has to be brought to, in their order.
pub fn pending_migrations(current: i64) -> (r: Vec<i64>)
    ensures
        r@ == versions_after(current as int),
{
    let mut out: Vec<i64> = Vec::new();
    let mut v: i64 = current;
    assert(out@ =~= versions_after(current as int).take(0));
    while v < LATEST_SCHEMA_VERSION
        invariant
            current <= v,
            v <= LATEST_SCHEMA_VERSION || v == current,
            out@.len() == v - current,
            forall|i: int| 0 <= i < out@.len() ==> out@[i] == current + 1 + i,
        decreases LATEST_SCHEMA_VERSION - v,
    {
        v = v + 1;
        out.push(v);
    }
    assert(out@ =~= versions_after(current as int));
    out
}

/// The version of a database, from the versions it was brought to: the highest
/// of them, or zero where there is none.
pub open spec fn version_of(recorded: Seq<i64>) -> int
    decreases recorded.len(),
{
    if recorded.len() == 0 {
        0
    } else if recorded.len() == 1 {
        recorded[0] as int
    } else {
        let before = version_of(recorded.drop_last());
        if before < recorded.last() {
            recorded.last() as int
        } else {
            before
        }
    }
}

/// The version of a database, from the versions it was brought to.
pub fn current_version(recorded: &Vec<i64>) -> (r: i64)
    ensures
        r == version_of(recorded@),
{
    if recorded.len() == 0 {
        return 0;
    }
    let mut v: i64 = recorded[0];
    for i in 1..recorded.len()
        invariant
            recorded.len() > 0,
            v == version_of(recorded@.take(i as int)),
    {
        assert(recorded@.take(i + 1).drop_last() =~= recorded@.take(i as int));
        if v < recorded[i] {
            v = recorded[i];
        }
    }
    assert(recorded@.take(recorded@.len() as int) =~= recorded@);
    v
}

/// What is to be done to bring a database up to date.
#[derive(Debug)]
pub struct Migration {
    /// The name of the backup that is made before; none where nothing is to be
    /// done or there is no place for backups.
    pub backup: Option<String>,
    /// The versions that the database is brought to, one after the other.
    pub versions: Vec<i64>,
}

/// A backup is made before a database of this version is brought up to date.
pub open spec fn is_backed_up(version: int, has_place: bool) -> bool {
    version < LATEST_SCHEMA_VERSION && has_place
}

/// What is to be done to bring a database up to date that was brought to these
/// versions; `has_place` tells whether there is a place for backups.
pub fn plan_migration(recorded: &Vec<i64>, has_place: bool) -> (r: Migration)
    ensures
        r.versions@ == versions_after(version_of(recorded@)),
        match r.backup {
            Some(name) => is_backed_up(version_of(recorded@), has_place) && exists|
                stamp: Seq<char>,
            |
                is_stamp(stamp) && name@ == #[trigger] backup_name(
                    migration_beginning(
                        version_of(recorded@),
                        LATEST_SCHEMA_VERSION as int,
                    ),
                    stamp,
                ),
            None => !is_backed_up(version_of(recorded@), has_place),
        },
{
    let current: i64 = current_version(recorded);
    let backup = if current < LATEST_SCHEMA_VERSION && has_place {
        Some(migration_backup_name(current, LATEST_SCHEMA_VERSION))
    } else {
        None
    };
    Migration { backup, versions: pending_migrations(current) }
}

/// The name of a version.
pub open spec fn version_name(v: int) -> Seq<char> {
    "migration_v"@ + decimal(v)
}

/// The name of a version.
pub fn migration_name(v: i64) -> (r: String)
    ensures
        r@ == version_name(v as int),
{
    let mut s = "migration_v".to_owned();
    s.append(&show_i64(v));
    s
}

/// One of the columns has this name.
pub open spec fn has_column(columns: Seq<Seq<char>>, column: Seq<char>) -> bool {
    exists|i: int|
        0 <= i < columns.len() && same_ignoring_ascii_case(#[trigger] columns[i], column)
}

/// One of the columns has this name.
pub fn column_exists(columns: &Vec<String>, column: &str) -> (r: bool)
    ensures
        r == has_column(texts(columns@), column@),
{
    for i in 0..columns.len()
        invariant
            forall|k: int|
                0 <= k < i ==> !same_ignoring_ascii_case(
                    #[trigger] texts(columns@)[k],
                    column@,
                ),
    {
        if eq_ignore_ascii_case(&columns[i], column) {
            assert(texts(columns@)[i as int] == columns@[i as int]@);
            return true;
        }
    }
    false
}

/// The statement that adds a column to a table; none where the table has it.
pub open spec fn added_column(
    columns: Seq<Seq<char>>,
    table: Seq<char>,
    column: Seq<char>,
    def: Seq<char>,
) -> Option<Seq<char>> {
    if has_column(columns, column) {
        None
    } else {
        Some("ALTER TABLE "@ + table + " ADD COLUMN "@ + column + " "@ + def)
    }
}

/// The statement that adds a column to a table; none where the table has it.
pub fn ensure_column(columns: &Vec<String>, table: &str, column: &str, def: &str) -> (r: Option<
    String,
>)
    ensures
        crate::text::opt_text(r) == added_column(texts(columns@), table@, column@, def@),
{
    if column_exists(columns, column) {
        return None;
    }
    let mut s = "ALTER TABLE ".to_owned();
    s.append(table);
    s.append(" ADD COLUMN ");
    s.append(column);
    s.append(" ");
    s.append(def);
    Some(s)
}

// ---------------------------------------------------------------------------
// Summaries of old databases
// ---------------------------------------------------------------------------

/// A summary of an old database, which had one for each conversation.
#[derive(Debug)]
pub struct LegacySummary<S = String> {
    pub id: S,
    pub conversation_id: S,
    pub summary: S,
    pub covered_until_message_id: S,
    pub covered_until_created_at: S,
    pub created_at: S,
    pub updated_at: S,
}

impl View for LegacySummary<String> {
    type V = LegacySummary<Seq<char>>;

    open spec fn view(&self) -> LegacySummary<Seq<char>> {
        LegacySummary {
            id: self.id@,
            conversation_id: self.conversation_id@,
            summary: self.summary@,
            covered_until_message_id: self.covered_until_message_id@,
            covered_until_created_at: self.covered_until_created_at@,
            created_at: self.created_at@,
            updated_at: self.updated_at@,
        }
    }
}

/// The first segment of a conversation.
pub open spec fn is_first_segment(conversation_id: Seq<char>) -> spec_fn(
    SummaryRow<Seq<char>>,
) -> bool {
    |s: SummaryRow<Seq<char>>| s.conversation_id == conversation_id && s.segment_index == 0
}

/// The summary has this identifier and is not the first segment of this
/// conversation.
pub open spec fn is_other_summary(id: Seq<char>, conversation_id: Seq<char>) -> spec_fn(
    SummaryRow<Seq<char>>,
) -> bool {
    |s: SummaryRow<Seq<char>>|
        s.id == id && !(s.conversation_id == conversation_id && s.segment_index == 0)
}

/// An old summary as the first segment of its conversation, under `id`.
pub open spec fn first_segment(l: LegacySummary<Seq<char>>, id: Seq<char>) -> SummaryRow<
    Seq<char>,
> {
    SummaryRow {
        id,
        conversation_id: l.conversation_id,
        segment_index: 0,
        summary: l.summary,
        covered_start_message_id: ""@,
        covered_end_message_id: l.covered_until_message_id,
        covered_start_created_at: ""@,
        covered_end_created_at: l.covered_until_created_at,
        source_message_count: 0,
        created_at: l.created_at,
        updated_at: l.updated_at,
    }
}

impl Tables {
    /// What is stored after an old summary was taken over; `fresh` is the
    /// identifier of one that has none. One without a conversation or a text is
    /// passed over, and a second one of a conversation replaces the first.
    pub open spec fn with_legacy(self, l: LegacySummary<Seq<char>>, fresh: Seq<char>) -> Result<
        Tables,
        DbError,
    > {
        let id = if is_blank(l.id) {
            fresh
        } else {
            l.id
        };
        if is_blank(l.conversation_id) || is_blank(l.summary) {
            Ok(self)
        } else if first_where(
            self.summaries,
            is_other_summary(id, l.conversation_id),
        ) is Some {
            Err(DbError::SummaryExists)
        } else {
            match first_where(self.summaries, is_first_segment(l.conversation_id)) {
                Some(i) => Ok(
                    Tables {
                        summaries: self.summaries.update(
                            i,
                            SummaryRow {
                                summary: l.summary,
                                covered_end_message_id: l.covered_until_message_id,
                                covered_end_created_at: l.covered_until_created_at,
                                updated_at: l.updated_at,
                                ..self.summaries[i]
                            },
                        ),
                        ..self
                    },
                ),
                None => if !self.has_conversation(l.conversation_id) {
                    Err(DbError::NoConversation)
                } else {
                    Ok(Tables { summaries: self.summaries.push(first_segment(l, id)), ..self })
                },
            }
        }
    }
}

impl Database {
    /// Takes over a summary of an old database; `fresh` is the identifier of
    /// one that has none.
    pub fn adopt_legacy_summary(&mut self, l: &LegacySummary, fresh: &str) -> (r: Result<(), DbError>)
        ensures
            crate::db::carried_out(
                r,
                old(self)@.with_legacy(l@, fresh@),
                old(self)@,
                final(self)@,
            ),
    {
        if blank(&l.conversation_id) || blank(&l.summary) {
            return Ok(());
        }
        let ghost before = self@;
        let id: &str = if blank(&l.id) {
            fresh
        } else {
            &l.id
        };
        let other = find_row(
            &self.summaries,
            |s: &SummaryRow| -> (r: bool)
                ensures
                    r == (s@.id == id@ && !(s@.conversation_id == l@.conversation_id
                        && s@.segment_index == 0))
                {
                    text_eq(&s.id, id) && !(text_eq(&s.conversation_id, &l.conversation_id)
                        && s.segment_index == 0)
                },
            Ghost(is_other_summary(id@, l@.conversation_id)),
        );
        if other.is_some() {
            return Err(DbError::SummaryExists);
        }
        let first = find_row(
            &self.summaries,
            |s: &SummaryRow| -> (r: bool)
                ensures
                    r == (s@.conversation_id == l@.conversation_id && s@.segment_index == 0)
                { text_eq(&s.conversation_id, &l.conversation_id) && s.segment_index == 0 },
            Ghost(is_first_segment(l@.conversation_id)),
        );
        match first {
            Some(i) => {
                let mut row = self.summaries[i].clone();
                row.summary = l.summary.clone();
                row.covered_end_message_id = l.covered_until_message_id.clone();
                row.covered_end_created_at = l.covered_until_created_at.clone();
                row.updated_at = l.updated_at.clone();
                let ghost next = before.summaries.update(i as int, row@);
                self.summaries.set(i, row);
                assert(views(self.summaries@) =~= next);
                Ok(())
            },
            None => {
                if self.find_conversation(&l.conversation_id).is_none() {
                    return Err(DbError::NoConversation);
                }
                let row = SummaryRow {
                    id: id.to_owned(),
                    conversation_id: l.conversation_id.clone(),
                    segment_index: 0,
                    summary: l.summary.clone(),
                    covered_start_message_id: "".to_owned(),
                    covered_end_message_id: l.covered_until_message_id.clone(),
                    covered_start_created_at: "".to_owned(),
                    covered_end_created_at: l.covered_until_created_at.clone(),
                    source_message_count: 0,
                    created_at: l.created_at.clone(),
                    updated_at: l.updated_at.clone(),
                };
                let ghost next = before.summaries.push(row@);
                self.summaries.push(row);
                assert(views(self.summaries@) =~= next);
                Ok(())
            },
        }
    }
}

// ---------------------------------------------------------------------------
// Start
// ---------------------------------------------------------------------------

impl Tables {
    /// What is stored when the program has started: settings and profiles are
    /// there, the forms without noise are fresh, and the conversations are
    /// numbered.
    pub open spec fn started(
        self,
        settings_now: Seq<char>,
        user_now: Seq<char>,
        style_now: Seq<char>,
    ) -> Tables {
        let t = self.with_defaults(
            first_settings(texts_json(default_model_names())),
            settings_now,
        ).with_profiles(user_now, style_now).with_fresh_norms();
        Tables { conversations: numbered(t.conversations), ..t }
    }
}

impl Database {
    /// Makes a database with the latest schema ready for the program.
    pub fn prepare_at(&mut self, settings_now: &str, user_now: &str, style_now: &str)
        ensures
            final(self)@ == old(self)@.started(settings_now@, user_now@, style_now@),
    {
        self.seed_default_settings_at(settings_now);
        self.seed_profile_defaults_at(user_now, style_now);
        self.rebuild_memory_normalized_cache();
        self.normalize_conversation_sort_order();
    }

    /// Makes a database with the latest schema ready for the program.
    pub fn prepare(&mut self)
        ensures
            exists|settings_now: Seq<char>, user_now: Seq<char>, style_now: Seq<char>|
                is_time_text(settings_now) && is_time_text(user_now) && is_time_text(style_now)
                    && final(self)@ == #[trigger] old(self)@.started(
                    settings_now,
                    user_now,
                    style_now,
                ),
    {
        let settings_now = now_iso();
        let user_now = now_iso();
        let style_now = now_iso();
        self.prepare_at(&settings_now, &user_now, &style_now)
    }
}

// ---------------------------------------------------------------------------
// Laws
// ---------------------------------------------------------------------------

/// Every key has a value after values were stored where there were none.
proof fn lemma_defaults_are_there(
    t: Tables,
    pairs: Seq<(Seq<char>, Seq<char>)>,
    now: Seq<char>,
    k: int,
)
    requires
        0 <= k < pairs.len(),
    ensures
        t.with_defaults(pairs, now).setting(pairs[k].0) is Some,
    decreases pairs.len(),
{
    let before = t.with_defaults(pairs.drop_last(), now);
    let (key, value) = pairs.last();
    law_setting_reads_back(before, key, value, now);
    if k < pairs.len() - 1 {
        lemma_defaults_are_there(t, pairs.drop_last(), now, k);
        if pairs[k].0 != key {
            assert(before.with_setting(key, value, now).setting(pairs[k].0) == before.setting(
                pairs[k].0,
            ));
        }
    }
}

/// Where every key has a value, none is stored.
proof fn lemma_defaults_are_idle(t: Tables, pairs: Seq<(Seq<char>, Seq<char>)>, now: Seq<char>)
    requires
        forall|k: int| 0 <= k < pairs.len() ==> t.setting((#[trigger] pairs[k]).0) is Some,
    ensures
        t.with_defaults(pairs, now) == t,
    decreases pairs.len(),
{
    if pairs.len() > 0 {
        let front = pairs.drop_last();
        assert forall|k: int| 0 <= k < front.len() implies t.setting((#[trigger] front[k]).0)
            is Some by {
            assert(front[k] == pairs[k]);
        }
        lemma_defaults_are_idle(t, front, now);
        assert(t.setting(pairs[pairs.len() - 1].0) is Some);
    }
}

/// Starting the program again changes nothing.
pub proof fn law_starting_again_changes_nothing(
    t: Tables,
    settings_now: Seq<char>,
    user_now: Seq<char>,
    style_now: Seq<char>,
    later: Seq<char>,
)
    requires
        distinct(t.conversations, conversation_key()),
        t.conversations.len() < i64::MAX,
    ensures
        ({
            let u = t.started(settings_now, user_now, style_now);
            u.started(later, later, later) == u
        }),
{
    let pairs = first_settings(texts_json(default_model_names()));
    let u = t.started(settings_now, user_now, style_now);
    let a = t.with_defaults(pairs, settings_now);
    lemma_defaults_keep_rows(t, pairs, settings_now);
    assert(u.settings == a.settings);
    assert forall|k: int| 0 <= k < pairs.len() implies u.setting((#[trigger] pairs[k]).0) is Some by {
        lemma_defaults_are_there(t, pairs, settings_now, k);
        assert(u.setting(pairs[k].0) == a.setting(pairs[k].0));
    }
    lemma_defaults_are_idle(u, pairs, later);
    assert(u.with_profiles(later, later) == u);
    assert(u.with_fresh_norms().memories =~= u.memories);
    assert(u.with_fresh_norms() == u);
    law_numbering_twice_is_once(t.conversations);
}

/// Storing values where there are none changes the settings alone.
proof fn lemma_defaults_keep_rows(t: Tables, pairs: Seq<(Seq<char>, Seq<char>)>, now: Seq<char>)
    ensures
        t.with_defaults(pairs, now) == (Tables {
            settings: t.with_defaults(pairs, now).settings,
            ..t
        }),
    decreases pairs.len(),
{
    if pairs.len() > 0 {
        lemma_defaults_keep_rows(t, pairs.drop_last(), now);
    }
}

/// Storing values where there are none keeps every value that is there.
proof fn lemma_defaults_keep_values(
    t: Tables,
    pairs: Seq<(Seq<char>, Seq<char>)>,
    now: Seq<char>,
    key: Seq<char>,
)
    requires
        t.setting(key) is Some,
    ensures
        t.with_defaults(pairs, now).setting(key) == t.setting(key),
    decreases pairs.len(),
{
    if pairs.len() > 0 {
        let before = t.with_defaults(pairs.drop_last(), now);
        lemma_defaults_keep_values(t, pairs.drop_last(), now, key);
        law_setting_reads_back(before, pairs.last().0, pairs.last().1, now);
    }
}

/// Starting the program loses nothing that is stored: messages, summaries and
/// files stay as they are, conversations but for their numbers, memories but
/// for their forms without noise, every setting with its value and every
/// profile.
pub proof fn law_starting_keeps_rows(
    t: Tables,
    settings_now: Seq<char>,
    user_now: Seq<char>,
    style_now: Seq<char>,
)
    ensures
        ({
            let u = t.started(settings_now, user_now, style_now);
            &&& u.messages == t.messages
            &&& u.summaries == t.summaries
            &&& u.files == t.files
            &&& u.conversations.len() == t.conversations.len()
            &&& forall|i: int|
                0 <= i < t.conversations.len() ==> #[trigger] u.conversations[i] == (
                ConversationRow { sort_index: u.conversations[i].sort_index, ..t.conversations[i] })
            &&& u.memories.len() == t.memories.len()
            &&& forall|i: int|
                0 <= i < t.memories.len() ==> #[trigger] u.memories[i] == (MemoryRow {
                    normalized_content: u.memories[i].normalized_content,
                    ..t.memories[i]
                })
            &&& forall|key: Seq<char>|
                t.setting(key) is Some ==> #[trigger] u.setting(key) == t.setting(key)
            &&& t.user_profile is Some ==> u.user_profile == t.user_profile
            &&& t.style_profile is Some ==> u.style_profile == t.style_profile
        }),
{
    let pairs = first_settings(texts_json(default_model_names()));
    let u = t.started(settings_now, user_now, style_now);
    let a = t.with_defaults(pairs, settings_now);
    lemma_defaults_keep_rows(t, pairs, settings_now);
    assert forall|key: Seq<char>| t.setting(key) is Some implies #[trigger] u.setting(key)
        == t.setting(key) by {
        lemma_defaults_keep_values(t, pairs, settings_now, key);
        assert(u.setting(key) == a.setting(key));
    }
}

/// Taking over an old summary changes nothing but the summaries, and leaves
/// those of other conversations and all later segments as they are.
pub proof fn law_legacy_keeps_rows(t: Tables, l: LegacySummary<Seq<char>>, fresh: Seq<char>)
    ensures
        match t.with_legacy(l, fresh) {
            Ok(u) => {
                &&& u == (Tables { summaries: u.summaries, ..t })
                &&& u.summaries.len() >= t.summaries.len()
                &&& forall|i: int|
                    0 <= i < t.summaries.len() && !is_first_segment(l.conversation_id)(
                        #[trigger] t.summaries[i],
                    ) ==> u.summaries[i] == t.summaries[i]
            },
            Err(_) => true,
        },
{
    lemma_first_where(t.summaries, is_first_segment(l.conversation_id));
}

/// A database that was brought up to date is of the latest version, so that
/// nothing is left to be done and no backup is made.
pub proof fn law_migrating_again_does_nothing(recorded: Seq<i64>, has_place: bool)
    requires
        version_of(recorded) < LATEST_SCHEMA_VERSION,
    ensures
        ({
            let after = recorded + versions_after(version_of(recorded));
            &&& version_of(after) == LATEST_SCHEMA_VERSION
            &&& versions_after(version_of(after)).len() == 0
            &&& !is_backed_up(version_of(after), has_place)
            &&& forall|v: i64|
                version_of(recorded) < v <= LATEST_SCHEMA_VERSION ==> #[trigger] after.contains(v)
        }),
{
    let current = version_of(recorded);
    let more = versions_after(current);
    let after = recorded + more;
    lemma_version_bounds(recorded);
    lemma_version_grows(recorded, more.len() as int);
    assert(more.take(more.len() as int) =~= more);
    assert forall|v: i64| current < v <= LATEST_SCHEMA_VERSION implies #[trigger] after.contains(
        v,
    ) by {
        assert(more[v - current - 1] == v);
        assert(after[recorded.len() + (v - current - 1)] == v);
    }
}

proof fn lemma_version_bounds(recorded: Seq<i64>)
    ensures
        i64::MIN <= version_of(recorded) <= i64::MAX,
    decreases recorded.len(),
{
    if recorded.len() > 1 {
        lemma_version_bounds(recorded.drop_last());
    }
}

/// The version after the first of the versions still to come.
proof fn lemma_version_grows(recorded: Seq<i64>, n: int)
    requires
        version_of(recorded) < LATEST_SCHEMA_VERSION,
        0 < n <= versions_after(version_of(recorded)).len(),
    ensures
        version_of(recorded + versions_after(version_of(recorded)).take(n)) == version_of(recorded)
            + n,
    decreases n,
{
    let current = version_of(recorded);
    let more = versions_after(current);
    lemma_version_bounds(recorded);
    let all = recorded + more.take(n);
    assert(all.last() == current + n);
    assert(all.drop_last() =~= recorded + more.take(n - 1));
    if n > 1 {
        lemma_version_grows(recorded, n - 1);
    } else {
        assert(all.drop_last() =~= recorded);
    }
}

/// A column that a table has is not added again.
pub proof fn law_columns_are_added_once(
    columns: Seq<Seq<char>>,
    table: Seq<char>,
    column: Seq<char>,
    def: Seq<char>,
)
    ensures
        added_column(columns.push(column), table, column, def) is None,
{
    let all = columns.push(column);
    assert(same_ignoring_ascii_case(all[columns.len() as int], column));
}

/// The versions still to come are the following ones up to the latest, each
/// once; a database of the latest version needs none.
pub proof fn law_versions_follow(current: int, i: int)
    requires
        i64::MIN <= current <= i64::MAX,
        0 <= i < versions_after(current).len(),
    ensures
        versions_after(current)[i] == current + 1 + i,
        versions_after(current).last() == LATEST_SCHEMA_VERSION,
        versions_after(LATEST_SCHEMA_VERSION as int).len() == 0,
{
}

} // verus!
