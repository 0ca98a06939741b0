//! What is known of the user and of how to answer.
use vstd::prelude::*;
use crate::db::{Database, Tables};
use crate::memory::{matchable, normalize_for_match};
use crate::models::{MemoryRow, StyleProfile, UserProfile};
use crate::stamps::{is_time_text, now_iso};
use crate::table::change_rows;

verus! {

/// Of a user nothing is known at first.
pub open spec fn blank_user(now: Seq<char>) -> UserProfile<Seq<char>> {
    UserProfile {
        preferred_name: ""@,
        long_term_goals: ""@,
        interests: ""@,
        important_experiences: ""@,
        language_preference: "auto"@,
        notes: ""@,
        updated_at: now,
    }
}

/// How to answer at first.
pub open spec fn first_style(now: Seq<char>) -> StyleProfile<Seq<char>> {
    StyleProfile {
        detail_level: "balanced"@,
        tone: "warm_direct"@,
        technical_level: "balanced"@,
        language_style: "auto"@,
        explicit_preferences: ""@,
        updated_at: now,
    }
}

/// Of a user nothing is known at first.
pub fn default_user_profile(now: &str) -> (r: UserProfile)
    ensures
        r@ == blank_user(now@),
{
    UserProfile {
        preferred_name: "".to_owned(),
        long_term_goals: "".to_owned(),
        interests: "".to_owned(),
        important_experiences: "".to_owned(),
        language_preference: "auto".to_owned(),
        notes: "".to_owned(),
        updated_at: now.to_owned(),
    }
}

/// How to answer at first.
pub fn default_style_profile(now: &str) -> (r: StyleProfile)
    ensures
        r@ == first_style(now@),
{
    StyleProfile {
        detail_level: "balanced".to_owned(),
        tone: "warm_direct".to_owned(),
        technical_level: "balanced".to_owned(),
        language_style: "auto".to_owned(),
        explicit_preferences: "".to_owned(),
        updated_at: now.to_owned(),
    }
}

impl Tables {
    /// What is known of the user; `now` dates what is not stored.
    pub open spec fn user(self, now: Seq<char>) -> UserProfile<Seq<char>> {
        match self.user_profile {
            Some(p) => p,
            None => blank_user(now),
        }
    }

    /// How to answer; `now` dates what is not stored.
    pub open spec fn style(self, now: Seq<char>) -> StyleProfile<Seq<char>> {
        match self.style_profile {
            Some(p) => p,
            None => first_style(now),
        }
    }

    /// What is stored after the profile of the user was replaced.
    pub open spec fn with_user(self, p: UserProfile<Seq<char>>, now: Seq<char>) -> Tables {
        Tables { user_profile: Some(UserProfile { updated_at: now, ..p }), ..self }
    }

    /// What is stored after the profile of the answers was replaced.
    pub open spec fn with_style(self, p: StyleProfile<Seq<char>>, now: Seq<char>) -> Tables {
        Tables { style_profile: Some(StyleProfile { updated_at: now, ..p }), ..self }
    }

    /// What is stored after each profile that was missing got its first
    /// content.
    pub open spec fn with_profiles(self, user_now: Seq<char>, style_now: Seq<char>) -> Tables {
        Tables {
            user_profile: Some(self.user(user_now)),
            style_profile: Some(self.style(style_now)),
            ..self
        }
    }

    /// What is stored after the forms without noise of all memories were taken
    /// anew.
    pub open spec fn with_fresh_norms(self) -> Tables {
        Tables {
            memories: Seq::new(
                self.memories.len(),
                |i: int|
                    MemoryRow {
                        normalized_content: matchable(self.memories[i].content),
                        ..self.memories[i]
                    },
            ),
            ..self
        }
    }
}

impl Database {
    /// What is known of the user; `now` dates what is not stored.
    pub fn user_profile_at(&self, now: &str) -> (r: UserProfile)
        ensures
            r@ == self@.user(now@),
    {
        match &self.user_profile {
            Some(p) => p.clone(),
            None => default_user_profile(now),
        }
    }

    /// What is known of the user.
    pub fn get_user_profile(&self) -> (r: UserProfile)
        ensures
            exists|now: Seq<char>| is_time_text(now) && r@ == #[trigger] self@.user(now),
    {
        let now = now_iso();
        self.user_profile_at(&now)
    }

    /// Replaces what is known of the user at `now`.
    pub fn save_user_profile_at(&mut self, profile: &UserProfile, now: &str)
        ensures
            final(self)@ == old(self)@.with_user(profile@, now@),
    {
        let mut p = profile.clone();
        p.updated_at = now.to_owned();
        self.user_profile = Some(p);
    }

    /// Replaces what is known of the user.
    pub fn save_user_profile(&mut self, profile: &UserProfile)
        ensures
            exists|now: Seq<char>|
                is_time_text(now) && final(self)@ == #[trigger] old(self)@.with_user(
                    profile@,
                    now,
                ),
    {
        let now = now_iso();
        self.save_user_profile_at(profile, &now)
    }

    /// How to answer; `now` dates what is not stored.
    pub fn style_profile_at(&self, now: &str) -> (r: StyleProfile)
        ensures
            r@ == self@.style(now@),
    {
        match &self.style_profile {
            Some(p) => p.clone(),
            None => default_style_profile(now),
        }
    }

    /// How to answer.
    pub fn get_style_profile(&self) -> (r: StyleProfile)
        ensures
            exists|now: Seq<char>| is_time_text(now) && r@ == #[trigger] self@.style(now),
    {
        let now = now_iso();
        self.style_profile_at(&now)
    }

    /// Replaces how to answer at `now`.
    pub fn save_style_profile_at(&mut self, profile: &StyleProfile, now: &str)
        ensures
            final(self)@ == old(self)@.with_style(profile@, now@),
    {
        let mut p = profile.clone();
        p.updated_at = now.to_owned();
        self.style_profile = Some(p);
    }

    /// Replaces how to answer.
    pub fn save_style_profile(&mut self, profile: &StyleProfile)
        ensures
            exists|now: Seq<char>|
                is_time_text(now) && final(self)@ == #[trigger] old(self)@.with_style(
                    profile@,
                    now,
                ),
    {
        let now = now_iso();
        self.save_style_profile_at(profile, &now)
    }

    /// Gives each profile that is missing its first content.
    pub fn seed_profile_defaults_at(&mut self, user_now: &str, style_now: &str)
        ensures
            final(self)@ == old(self)@.with_profiles(user_now@, style_now@),
    {
        let user = self.user_profile_at(user_now);
        let style = self.style_profile_at(style_now);
        self.user_profile = Some(user);
        self.style_profile = Some(style);
    }

    /// Takes the forms without noise of all memories anew.
    pub fn rebuild_memory_normalized_cache(&mut self)
        ensures
            final(self)@ == old(self)@.with_fresh_norms(),
    {
        let ghost before = self@;
        change_rows(
            &mut self.memories,
            |m: &MemoryRow| -> (r: bool)
                ensures
                    r == true
                { true },
            |m: &MemoryRow| -> (r: MemoryRow)
                ensures
                    r@ == (MemoryRow { normalized_content: matchable(m@.content), ..m@ })
                {
                    let mut d = m.clone();
                    d.normalized_content = normalize_for_match(&m.content);
                    d
                },
            Ghost(|m: MemoryRow<Seq<char>>| true),
            Ghost(
                |m: MemoryRow<Seq<char>>|
                    MemoryRow { normalized_content: matchable(m.content), ..m },
            ),
        );
        assert(self@.memories =~= before.with_fresh_norms().memories);
    }
}

} // verus!
