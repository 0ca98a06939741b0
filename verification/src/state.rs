//! The state of the running program: what is stored, and which answers are
//! being written.
use vstd::prelude::*;
use crate::api::reply::Completion;
use crate::chat::{config_view, conversation_config};
use crate::db::conversations::no_overrides;
use crate::db::messages::new_message;
use crate::db::soundness::{
    law_sound_conversation_settings, law_sound_with_message, law_sound_with_setting,
};
use crate::db::{error_text, Database, DbError, Tables};
use crate::learning::{
    law_learning_keeps_soundness, law_summarising_keeps_soundness, law_teaching_keeps_soundness,
    maybe_extract_memories, maybe_update_summary, update_profiles_from_user_text,
};
use crate::memory::candidates_of;
use crate::summary::segments_of;
use crate::models::{ApiRuntimeConfig, TokenUsage};
use crate::sorting::views;
use crate::stamps::{are_drawn, fresh_id, is_time_text, is_uuid, now_iso, Draw};
use crate::table::{change_rows, changed, find_row, first_row, first_where, keep_rows, lemma_first_where};
use crate::text::{
    blank, clip_chars, clipped, is_blank, lowercase, opt_str, replace_char, replaced, text_eq, trim,
    trimmed,
};

verus! {

// ---------------------------------------------------------------------------
// Answers that are being written
// ---------------------------------------------------------------------------

/// A conversation in which an answer is being written.
#[verifier::ext_equal]
#[derive(Debug)]
pub struct Running<S = String> {
    pub conversation_id: S,
    /// The user asked to stop.
    pub stopped: bool,
}

impl View for Running<String> {
    type V = Running<Seq<char>>;

    open spec fn view(&self) -> Running<Seq<char>> {
        Running { conversation_id: self.conversation_id@, stopped: self.stopped }
    }
}

/// The state of the running program.
#[derive(Debug)]
pub struct AppState {
    pub db: Database,
    pub generation_flags: Vec<Running>,
}

/// The state of the running program over mathematical sequences.
#[verifier::ext_equal]
pub struct StateView {
    pub tables: Tables,
    pub running: Seq<Running<Seq<char>>>,
}

impl View for AppState {
    type V = StateView;

    open spec fn view(&self) -> StateView {
        StateView { tables: self.db@, running: views(self.generation_flags@) }
    }
}

/// The answer is being written in this conversation.
pub open spec fn runs_in(id: Seq<char>) -> spec_fn(Running<Seq<char>>) -> bool {
    |r: Running<Seq<char>>| r.conversation_id == id
}

/// The answer is being written in another conversation.
pub open spec fn runs_elsewhere(id: Seq<char>) -> spec_fn(Running<Seq<char>>) -> bool {
    |r: Running<Seq<char>>| r.conversation_id != id
}

impl StateView {
    /// Whether an answer that is being written is to stop; nothing where none
    /// is written.
    pub open spec fn flag(self, conversation_id: Seq<char>) -> Option<bool> {
        match first_row(self.running, runs_in(conversation_id)) {
            Some(r) => Some(r.stopped),
            None => None,
        }
    }

    /// An answer that is being written is to stop.
    pub open spec fn stops(self, conversation_id: Seq<char>) -> bool {
        self.flag(conversation_id) == Some(true)
    }

    /// What is running after the writing of an answer ended.
    pub open spec fn cleared(self, conversation_id: Seq<char>) -> StateView {
        StateView { running: self.running.filter(runs_elsewhere(conversation_id)), ..self }
    }

    /// What is running after the writing of an answer began.
    pub open spec fn registered(self, conversation_id: Seq<char>) -> StateView {
        StateView {
            running: self.cleared(conversation_id).running.push(
                Running { conversation_id, stopped: false },
            ),
            ..self
        }
    }

    /// What is running after the user asked to stop.
    pub open spec fn stopping(self, conversation_id: Seq<char>) -> StateView {
        StateView {
            running: changed(
                self.running,
                runs_in(conversation_id),
                |r: Running<Seq<char>>| Running { stopped: true, ..r },
            ),
            ..self
        }
    }
}

proof fn lemma_flag_filtered(s: Seq<Running<Seq<char>>>, id: Seq<char>, k: Seq<char>)
    ensures
        first_row(s.filter(runs_elsewhere(id)), runs_in(k)) == if k == id {
            None
        } else {
            first_row(s, runs_in(k))
        },
    decreases s.len(),
{
    reveal(Seq::filter);
    if s.len() > 0 {
        lemma_flag_filtered(s.drop_last(), id, k);
        let kept = s.filter(runs_elsewhere(id));
        let before = s.drop_last().filter(runs_elsewhere(id));
        lemma_first_where(s.drop_last(), runs_in(k));
        lemma_first_where(before, runs_in(k));
        if runs_elsewhere(id)(s.last()) {
            assert(kept.drop_last() =~= before);
        }
    }
}

/// When the writing of an answer ended, none is written in that conversation,
/// and other conversations are as they were.
pub proof fn law_cleared(s: StateView, id: Seq<char>)
    ensures
        s.cleared(id).flag(id) is None,
        forall|k: Seq<char>| k != id ==> #[trigger] s.cleared(id).flag(k) == s.flag(k),
{
    lemma_flag_filtered(s.running, id, id);
    assert forall|k: Seq<char>| k != id implies #[trigger] s.cleared(id).flag(k) == s.flag(k) by {
        lemma_flag_filtered(s.running, id, k);
    }
}

/// When the writing of an answer began, it is written in that conversation and
/// not to stop, and other conversations are as they were.
pub proof fn law_registered(s: StateView, id: Seq<char>)
    ensures
        s.registered(id).flag(id) == Some(false),
        forall|k: Seq<char>| k != id ==> #[trigger] s.registered(id).flag(k) == s.flag(k),
{
    let before = s.cleared(id).running;
    let after = s.registered(id).running;
    law_cleared(s, id);
    assert(after.drop_last() =~= before);
    lemma_first_where(before, runs_in(id));
    assert forall|k: Seq<char>| k != id implies #[trigger] s.registered(id).flag(k) == s.flag(k) by {
        assert(s.cleared(id).flag(k) == s.flag(k));
        lemma_first_where(before, runs_in(k));
    }
}

/// When the user asked to stop, the answer in that conversation is to stop, and
/// other conversations are as they were.
pub proof fn law_stopping(s: StateView, id: Seq<char>)
    ensures
        s.stopping(id).flag(id) == (if s.flag(id) is Some {
            Some(true)
        } else {
            None
        }),
        forall|k: Seq<char>| k != id ==> #[trigger] s.stopping(id).flag(k) == s.flag(k),
{
    lemma_flag_changed(s.running, id, id, s.stopping(id).running);
    assert forall|k: Seq<char>| k != id implies #[trigger] s.stopping(id).flag(k) == s.flag(k) by {
        lemma_flag_changed(s.running, id, k, s.stopping(id).running);
    }
}

proof fn lemma_flag_changed(
    s: Seq<Running<Seq<char>>>,
    id: Seq<char>,
    k: Seq<char>,
    after: Seq<Running<Seq<char>>>,
)
    requires
        after.len() == s.len(),
        forall|i: int|
            0 <= i < s.len() ==> #[trigger] after[i] == (if s[i].conversation_id == id {
                Running { stopped: true, ..s[i] }
            } else {
                s[i]
            }),
    ensures
        first_where(after, runs_in(k)) == first_where(s, runs_in(k)),
        first_where(s, runs_in(k)) is Some ==> 0 <= first_where(s, runs_in(k))->0 < s.len()
            && s[first_where(s, runs_in(k))->0].conversation_id == k,
    decreases s.len(),
{
    if s.len() > 0 {
        let n = s.len() - 1;
        assert(after[n] == (if s[n].conversation_id == id {
            Running { stopped: true, ..s[n] }
        } else {
            s[n]
        }));
        lemma_flag_changed(s.drop_last(), id, k, after.drop_last());
        lemma_first_where(s, runs_in(k));
    }
}

impl AppState {
    /// Whether an answer is being written in a conversation.
    pub fn is_generating(&self, conversation_id: &str) -> (r: bool)
        ensures
            r == (self@.flag(conversation_id@) is Some),
    {
        find_row(
            &self.generation_flags,
            |f: &Running| -> (r: bool)
                ensures
                    r == (f@.conversation_id == conversation_id@)
                { text_eq(&f.conversation_id, conversation_id) },
            Ghost(runs_in(conversation_id@)),
        ).is_some()
    }

    /// Whether the answer that is being written in a conversation is to stop.
    pub fn is_stopped(&self, conversation_id: &str) -> (r: bool)
        ensures
            r == self@.stops(conversation_id@),
    {
        match find_row(
            &self.generation_flags,
            |f: &Running| -> (r: bool)
                ensures
                    r == (f@.conversation_id == conversation_id@)
                { text_eq(&f.conversation_id, conversation_id) },
            Ghost(runs_in(conversation_id@)),
        ) {
            Some(i) => self.generation_flags[i].stopped,
            None => false,
        }
    }

    /// The writing of an answer ends.
    pub fn clear_generation(&mut self, conversation_id: &str)
        ensures
            final(self)@ == old(self)@.cleared(conversation_id@),
    {
        keep_rows(
            &mut self.generation_flags,
            |f: &Running| -> (r: bool)
                ensures
                    r == (f@.conversation_id != conversation_id@)
                { !text_eq(&f.conversation_id, conversation_id) },
            Ghost(runs_elsewhere(conversation_id@)),
        );
    }

    /// The writing of an answer begins.
    pub fn register_generation(&mut self, conversation_id: &str)
        ensures
            final(self)@ == old(self)@.registered(conversation_id@),
    {
        self.clear_generation(conversation_id);
        let f = Running { conversation_id: conversation_id.to_owned(), stopped: false };
        let ghost next = views(self.generation_flags@).push(f@);
        self.generation_flags.push(f);
        assert(views(self.generation_flags@) =~= next);
    }

    /// The user asks to stop; the result says whether there was anything to
    /// stop.
    pub fn stop_generation(&mut self, conversation_id: &str) -> (r: bool)
        ensures
            r == (old(self)@.flag(conversation_id@) is Some),
            final(self)@ == old(self)@.stopping(conversation_id@),
    {
        let runs = self.is_generating(conversation_id);
        change_rows(
            &mut self.generation_flags,
            |f: &Running| -> (r: bool)
                ensures
                    r == (f@.conversation_id == conversation_id@)
                { text_eq(&f.conversation_id, conversation_id) },
            |f: &Running| -> (r: Running)
                ensures
                    r@ == (Running { stopped: true, ..f@ })
                { Running { conversation_id: f.conversation_id.clone(), stopped: true } },
            Ghost(runs_in(conversation_id@)),
            Ghost(|r: Running<Seq<char>>| Running { stopped: true, ..r }),
        );
        runs
    }
}

// ---------------------------------------------------------------------------
// Beginning an answer
// ---------------------------------------------------------------------------

/// An answer that is about to be written.
#[derive(Debug)]
pub struct Started {
    pub request_id: String,
    /// The message that is answered.
    pub user_message_id: String,
    pub config: ApiRuntimeConfig,
    /// All memories are to fade first.
    pub fade: bool,
}

/// What is said where an answer is being written already.
pub open spec fn busy_text() -> Seq<char> {
    "current conversation already has a running generation task"@
}

impl Tables {
    /// What is stored after a message was learned from.
    pub open spec fn learned(
        self,
        user_text: Seq<char>,
        conversation_id: Seq<char>,
        message_id: Seq<char>,
        user_now: Seq<char>,
        style_now: Seq<char>,
        draws: Seq<Draw>,
    ) -> Tables {
        self.taught(user_text, user_now, style_now).all_remembered(
            candidates_of(trimmed(user_text), lowercase(trimmed(user_text))),
            Some(conversation_id),
            Some(message_id),
            draws,
        ).tables
    }

    /// All memories fade after a message was learned from: it gave something
    /// to remember, and nothing was refused.
    pub open spec fn fades_after(
        self,
        user_text: Seq<char>,
        conversation_id: Seq<char>,
        message_id: Seq<char>,
        user_now: Seq<char>,
        style_now: Seq<char>,
        draws: Seq<Draw>,
    ) -> bool {
        let list = candidates_of(trimmed(user_text), lowercase(trimmed(user_text)));
        list.len() > 0 && self.taught(user_text, user_now, style_now).all_remembered(
            list,
            Some(conversation_id),
            Some(message_id),
            draws,
        ).error is None
    }

    /// What is stored, and whether all memories are to fade, can come from
    /// learning from a message.
    pub open spec fn may_learn(
        self,
        user_text: Seq<char>,
        conversation_id: Seq<char>,
        message_id: Seq<char>,
        after: Tables,
        fade: bool,
    ) -> bool {
        exists|user_now: Seq<char>, style_now: Seq<char>, draws: Seq<Draw>|
            is_time_text(user_now) && is_time_text(style_now) && are_drawn(draws) && draws.len()
                == candidates_of(trimmed(user_text), lowercase(trimmed(user_text))).len() && after
                == #[trigger] self.learned(
                user_text,
                conversation_id,
                message_id,
                user_now,
                style_now,
                draws,
            ) && fade == self.fades_after(
                user_text,
                conversation_id,
                message_id,
                user_now,
                style_now,
                draws,
            )
    }
}

/// Learns from a message; the result says whether all memories are to fade.
pub fn learn(db: &mut Database, user_text: &str, conversation_id: &str, message_id: &str) -> (r:
    bool)
    ensures
        old(db)@.may_learn(user_text@, conversation_id@, message_id@, final(db)@, r),
{
    let ghost before = db@;
    update_profiles_from_user_text(db, user_text);
    let ghost taught = db@;
    let ghost (user_now, style_now) = choose|user_now: Seq<char>, style_now: Seq<char>|
        is_time_text(user_now) && is_time_text(style_now) && taught == #[trigger] before.taught(
            user_text@,
            user_now,
            style_now,
        );
    let ghost list = candidates_of(trimmed(user_text@), lowercase(trimmed(user_text@)));
    let r = maybe_extract_memories(db, Some(conversation_id), Some(message_id), user_text);
    let ghost failed: Option<DbError> = match r {
        Ok(_) => None,
        Err(e) => Some(e),
    };
    let ghost draws = choose|draws: Seq<Draw>|
        draws.len() == list.len() && are_drawn(draws) && #[trigger] taught.all_remembered(
            list,
            Some(conversation_id@),
            Some(message_id@),
            draws,
        ) == (crate::learning::Stored { tables: db@, error: failed });
    assert(db@ == before.learned(
        user_text@,
        conversation_id@,
        message_id@,
        user_now,
        style_now,
        draws,
    ));
    match r {
        Ok(fade) => fade,
        Err(_) => false,
    }
}

impl StateView {
    /// Whether an answer may be written in a conversation, and how the model is
    /// asked, with the stored settings and the bits of the temperature.
    pub open spec fn may_start(
        self,
        conversation_id: Seq<char>,
        temperature: u32,
    ) -> Result<ApiRuntimeConfig<Seq<char>>, Seq<char>> {
        if self.flag(conversation_id) is Some {
            Err(busy_text())
        } else {
            self.tables.config(
                conversation_id,
                self.tables.chat_in_use(temperature),
                temperature,
            )
        }
    }

    /// What is stored after the message that is answered, and its identifier:
    /// a new message with `draw`, which is stored at `touched_at`, or one that
    /// was there.
    pub open spec fn with_question(
        self,
        conversation_id: Seq<char>,
        user_text: Seq<char>,
        saved: bool,
        source: Option<Seq<char>>,
        draw: Draw,
        touched_at: Seq<char>,
    ) -> Result<(Tables, Seq<char>), DbError> {
        if saved {
            match self.tables.with_message(
                new_message(
                    draw.id,
                    conversation_id,
                    "user"@,
                    user_text,
                    ""@,
                    TokenUsage::zero(),
                    draw.now,
                ),
                touched_at,
            ) {
                Ok(t) => Ok((t, draw.id)),
                Err(e) => Err(e),
            }
        } else {
            Ok(
                (
                    self.tables,
                    match source {
                        Some(id) => id,
                        None => ""@,
                    },
                ),
            )
        }
    }
}

/// The beginning of an answer went as it should.
pub open spec fn is_start(
    r: Result<Started, String>,
    before: StateView,
    after: StateView,
    conversation_id: Seq<char>,
    user_text: Seq<char>,
    question: Result<(Tables, Seq<char>), DbError>,
    config: Result<ApiRuntimeConfig<Seq<char>>, Seq<char>>,
) -> bool {
    match (config, question) {
        (Err(e), _) => after == before && match r {
            Err(m) => m@ == e,
            Ok(_) => false,
        },
        (Ok(_), Err(e)) => after == before.registered(conversation_id).cleared(conversation_id)
            && match r {
            Err(m) => m@ == error_text(e),
            Ok(_) => false,
        },
        (Ok(c), Ok((t, id))) => after.running == before.registered(conversation_id).running
            && match r {
            Err(_) => false,
            Ok(s) => s.config@ == c && s.user_message_id@ == id && is_uuid(s.request_id@)
                && t.may_learn(user_text, conversation_id, id, after.tables, s.fade),
        },
    }
}

impl AppState {
    /// Whether an answer may be written in a conversation, and how the model is
    /// asked, with the stored settings and the bits of the temperature.
    pub fn check_start(&self, conversation_id: &str, temperature: u32) -> (r: Result<
        ApiRuntimeConfig,
        String,
    >)
        ensures
            config_view(r) == self@.may_start(conversation_id@, temperature),
    {
        if self.is_generating(conversation_id) {
            return Err(
                "current conversation already has a running generation task".to_owned(),
            );
        }
        let settings = self.db.get_chat_settings(temperature);
        conversation_config(&self.db, conversation_id, &settings, temperature)
    }

    /// Begins an answer: checks that one may be written, stores the message
    /// that is answered where it is new, and learns from it.
    pub fn begin_generation(
        &mut self,
        conversation_id: &str,
        user_text: &str,
        save_user_message: bool,
        source_user_message_id: Option<&str>,
        temperature: u32,
    ) -> (r: Result<Started, String>)
        ensures
            exists|draw: Draw, touched_at: Seq<char>|
                is_uuid(draw.id) && is_time_text(draw.now) && is_time_text(touched_at) && is_start(
                    r,
                    old(self)@,
                    final(self)@,
                    conversation_id@,
                    user_text@,
                    #[trigger] old(self)@.with_question(
                        conversation_id@,
                        user_text@,
                        save_user_message,
                        opt_str(source_user_message_id),
                        draw,
                        touched_at,
                    ),
                    old(self)@.may_start(conversation_id@, temperature),
                ),
    {
        let ghost before = self@;
        let id = fresh_id();
        let now = now_iso();
        let touched_at = now_iso();
        let ghost draw = Draw { id: id@, now: now@ };
        let ghost source = opt_str(source_user_message_id);
        let ghost question = before.with_question(
            conversation_id@,
            user_text@,
            save_user_message,
            source,
            draw,
            touched_at@,
        );
        let config = match self.check_start(conversation_id, temperature) {
            Ok(c) => c,
            Err(e) => {
                return Err(e);
            },
        };
        let request_id = fresh_id();
        self.register_generation(conversation_id);
        let user_message_id = if save_user_message {
            let usage = TokenUsage::default();
            match self.db.add_message_at(
                conversation_id,
                "user",
                user_text,
                "",
                &usage,
                &id,
                &now,
                &touched_at,
            ) {
                Ok(_) => id,
                Err(e) => {
                    self.clear_generation(conversation_id);
                    return Err(e.message());
                },
            }
        } else {
            match source_user_message_id {
                Some(s) => s.to_owned(),
                None => "".to_owned(),
            }
        };
        assert(question == Ok::<(Tables, Seq<char>), DbError>((self.db@, user_message_id@)));
        let fade = learn(&mut self.db, user_text, conversation_id, &user_message_id);
        Ok(Started { request_id, user_message_id, config, fade })
    }
}

// ---------------------------------------------------------------------------
// Ending an answer
// ---------------------------------------------------------------------------

/// A title made of what the user says.
pub open spec fn title_of(s: Seq<char>) -> Seq<char> {
    let cleaned = replaced(trimmed(s), '\n', " "@);
    if cleaned.len() == 0 {
        "New Chat"@
    } else {
        clipped(cleaned, 36)
    }
}

/// A title made of what the user says.
pub fn normalize_title(input: &str) -> (r: String)
    ensures
        r@ == title_of(input@),
{
    let cleaned = replace_char(&trim(input), '\n', " ");
    if cleaned.as_str().is_empty() {
        "New Chat".to_owned()
    } else {
        clip_chars(&cleaned, 36)
    }
}

/// The content of an answer, with a mark where the user asked to stop.
pub open spec fn final_content(content: Seq<char>, stopped: bool) -> Seq<char> {
    if !stopped {
        content
    } else if is_blank(content) {
        "Generation stopped."@
    } else {
        content + "\n\n[Generation stopped]"@
    }
}

/// What was written before the user asked to stop is kept.
pub proof fn law_stopped_answer_is_kept(content: Seq<char>, stopped: bool)
    requires
        !is_blank(content),
    ensures
        crate::text::starts(final_content(content, stopped), content),
        !is_blank(final_content(content, false)),
{
    assert(final_content(content, stopped).take(content.len() as int) =~= content);
}

/// The content of an answer, with a mark where the user asked to stop.
pub fn mark_stopped(content: String, stopped: bool) -> (r: String)
    ensures
        r@ == final_content(content@, stopped),
{
    if !stopped {
        return content;
    }
    if blank(&content) {
        return "Generation stopped.".to_owned();
    }
    let mut c = content;
    c.append("\n\n[Generation stopped]");
    c
}

/// An answer that was stored.
#[derive(Debug)]
pub struct Finished {
    pub message_id: String,
    pub content: String,
}

impl Tables {
    /// What is stored can come from what is done behind an answer: a title
    /// where there is none, summaries of old messages, and the conversation as
    /// the one that was used last.
    pub open spec fn may_follow(
        self,
        conversation_id: Seq<char>,
        user_text: Seq<char>,
        after: Tables,
    ) -> bool {
        exists|title_now: Seq<char>, draws: Seq<Draw>, setting_now: Seq<char>|
            is_time_text(title_now) && are_drawn(draws) && is_time_text(setting_now) && draws.len()
                == segments_of(
                self.auto_titled(conversation_id, title_of(user_text), title_now).unsummarised(
                    conversation_id,
                ),
            ).len() && after == #[trigger] self.followed(
                conversation_id,
                user_text,
                title_now,
                draws,
                setting_now,
            )
    }

    /// What is stored after what is done behind an answer.
    pub open spec fn followed(
        self,
        conversation_id: Seq<char>,
        user_text: Seq<char>,
        title_now: Seq<char>,
        draws: Seq<Draw>,
        setting_now: Seq<char>,
    ) -> Tables {
        let titled = self.auto_titled(conversation_id, title_of(user_text), title_now);
        let pending = titled.unsummarised(conversation_id);
        titled.summarised(conversation_id, pending, segments_of(pending), draws).tables.with_setting(
            "last_conversation_id"@,
            conversation_id,
            setting_now,
        )
    }
}

/// Does what is done behind an answer.
pub fn follow_up(db: &mut Database, conversation_id: &str, user_text: &str)
    ensures
        old(db)@.may_follow(conversation_id@, user_text@, final(db)@),
{
    let ghost before = db@;
    let title_now = now_iso();
    db.maybe_auto_title_at(conversation_id, &normalize_title(user_text), &title_now);
    let ghost titled = db@;
    let ghost pending = titled.unsummarised(conversation_id@);
    let _ = maybe_update_summary(db, conversation_id);
    let ghost draws = choose|draws: Seq<Draw>|
        draws.len() == segments_of(pending).len() && are_drawn(draws) && (
        #[trigger] titled.summarised(
            conversation_id@,
            pending,
            segments_of(pending),
            draws,
        )).tables == db@;
    let setting_now = now_iso();
    db.set_setting_at("last_conversation_id", conversation_id, &setting_now);
    assert(db@ == before.followed(
        conversation_id@,
        user_text@,
        title_now@,
        draws,
        setting_now@,
    ));
}

impl StateView {
    /// What is stored after an answer was stored with `draw` at `touched_at`.
    pub open spec fn with_answer(
        self,
        conversation_id: Seq<char>,
        reply: Completion<Seq<char>>,
        draw: Draw,
        touched_at: Seq<char>,
    ) -> Result<Tables, DbError> {
        self.tables.with_message(
            new_message(
                draw.id,
                conversation_id,
                "assistant"@,
                final_content(reply.content, self.stops(conversation_id)),
                reply.reasoning,
                reply.usage,
                draw.now,
            ),
            touched_at,
        )
    }
}

/// The end of an answer went as it should. Where the answer cannot be stored,
/// its conversation stays marked as one in which an answer is written.
pub open spec fn is_finish(
    r: Result<Finished, String>,
    before: StateView,
    after: StateView,
    conversation_id: Seq<char>,
    user_text: Seq<char>,
    content: Seq<char>,
    id: Seq<char>,
    stored: Result<Tables, DbError>,
) -> bool {
    match stored {
        Err(e) => after == before && match r {
            Err(m) => m@ == error_text(e),
            Ok(_) => false,
        },
        Ok(t) => after.running == before.cleared(conversation_id).running && t.may_follow(
            conversation_id,
            user_text,
            after.tables,
        ) && match r {
            Err(_) => false,
            Ok(f) => f.message_id@ == id && f.content@ == content,
        },
    }
}

impl AppState {
    /// Ends an answer: stores it, with a mark where the user asked to stop, and
    /// does what is done behind an answer.
    pub fn finish_generation(
        &mut self,
        conversation_id: &str,
        user_text: &str,
        reply: Completion,
    ) -> (r: Result<Finished, String>)
        ensures
            exists|draw: Draw, touched_at: Seq<char>|
                is_uuid(draw.id) && is_time_text(draw.now) && is_time_text(touched_at) && is_finish(
                    r,
                    old(self)@,
                    final(self)@,
                    conversation_id@,
                    user_text@,
                    final_content(
                        reply@.content,
                        old(self)@.stops(conversation_id@),
                    ),
                    draw.id,
                    #[trigger] old(self)@.with_answer(conversation_id@, reply@, draw, touched_at),
                ),
    {
        let ghost before = self@;
        let stopped = self.is_stopped(conversation_id);
        let content = mark_stopped(reply.content, stopped);
        let id = fresh_id();
        let now = now_iso();
        let touched_at = now_iso();
        let ghost draw = Draw { id: id@, now: now@ };
        let ghost stored = before.with_answer(conversation_id@, reply@, draw, touched_at@);
        match self.db.add_message_at(
            conversation_id,
            "assistant",
            &content,
            &reply.reasoning,
            &reply.usage,
            &id,
            &now,
            &touched_at,
        ) {
            Ok(_) => {},
            Err(e) => {
                assert(stored == Err::<Tables, DbError>(e));
                return Err(e.message());
            },
        }
        assert(stored == Ok::<Tables, DbError>(self.db@));
        follow_up(&mut self.db, conversation_id, user_text);
        self.clear_generation(conversation_id);
        Ok(Finished { message_id: id, content })
    }

    /// Ends an answer that failed.
    pub fn fail_generation(&mut self, conversation_id: &str)
        ensures
            final(self)@ == old(self)@.cleared(conversation_id@),
    {
        self.clear_generation(conversation_id)
    }
}

/// Only what asks to be remembered is remembered: from any other message no
/// memory is made, and none is changed.
pub proof fn law_only_requests_are_remembered(
    t: Tables,
    user_text: Seq<char>,
    conversation_id: Seq<char>,
    message_id: Seq<char>,
    user_now: Seq<char>,
    style_now: Seq<char>,
    draws: Seq<Draw>,
)
    ensures
        !crate::memory::asks_to_remember(trimmed(user_text), lowercase(trimmed(user_text)))
            ==> t.learned(
            user_text,
            conversation_id,
            message_id,
            user_now,
            style_now,
            draws,
        ).memories == t.memories,
{
}

/// The beginning and the end of an answer keep what every operation keeps.
pub proof fn law_answers_keep_soundness(
    s: StateView,
    conversation_id: Seq<char>,
    user_text: Seq<char>,
    saved: bool,
    source: Option<Seq<char>>,
    reply: Completion<Seq<char>>,
    draw: Draw,
    touched_at: Seq<char>,
    user_now: Seq<char>,
    style_now: Seq<char>,
    draws: Seq<Draw>,
    setting_now: Seq<char>,
)
    requires
        s.tables.sound(),
    ensures
        match s.with_question(conversation_id, user_text, saved, source, draw, touched_at) {
            Ok((t, id)) => t.learned(
                user_text,
                conversation_id,
                id,
                user_now,
                style_now,
                draws,
            ).sound(),
            Err(_) => true,
        },
        match s.with_answer(conversation_id, reply, draw, touched_at) {
            Ok(t) => t.followed(
                conversation_id,
                user_text,
                user_now,
                draws,
                setting_now,
            ).sound(),
            Err(_) => true,
        },
{
    law_sound_with_message(
        s.tables,
        new_message(
            draw.id,
            conversation_id,
            "user"@,
            user_text,
            ""@,
            TokenUsage::zero(),
            draw.now,
        ),
        touched_at,
    );
    match s.with_question(conversation_id, user_text, saved, source, draw, touched_at) {
        Ok((t, id)) => {
            law_teaching_keeps_soundness(t, user_text, user_now, style_now);
            law_learning_keeps_soundness(
                t.taught(user_text, user_now, style_now),
                candidates_of(trimmed(user_text), lowercase(trimmed(user_text))),
                Some(conversation_id),
                Some(id),
                draws,
            );
        },
        Err(_) => {},
    }
    law_sound_with_message(
        s.tables,
        new_message(
            draw.id,
            conversation_id,
            "assistant"@,
            final_content(reply.content, s.stops(conversation_id)),
            reply.reasoning,
            reply.usage,
            draw.now,
        ),
        touched_at,
    );
    match s.with_answer(conversation_id, reply, draw, touched_at) {
        Ok(t) => {
            law_sound_conversation_settings(
                t,
                conversation_id,
                title_of(user_text),
                no_overrides(),
                user_now,
            );
            let titled = t.auto_titled(conversation_id, title_of(user_text), user_now);
            let pending = titled.unsummarised(conversation_id);
            law_summarising_keeps_soundness(
                titled,
                conversation_id,
                pending,
                segments_of(pending),
                draws,
            );
            law_sound_with_setting(
                titled.summarised(conversation_id, pending, segments_of(pending), draws).tables,
                "last_conversation_id"@,
                conversation_id,
                setting_now,
            );
        },
        Err(_) => {},
    }
}

} // verus!
