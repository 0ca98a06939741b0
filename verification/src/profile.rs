//! What a message says of its writer.
use vstd::prelude::*;
use crate::lines::law_adding_a_line_twice;
use crate::memory::{
    add_unique_line, detect_language_style, language_of, try_extract_after, with_line, word_after,
};
use crate::models::{StyleProfile, UserProfile};
use crate::text::{clip_chars, clipped, has_any, text_eq};
use crate::words::{
    chinese_words, concise_words, concise_words_lowered, detailed_words, detailed_words_lowered,
    direct_words, direct_words_lowered, english_words, english_words_lowered, event_words,
    event_words_lowered, gentle_words, gentle_words_lowered, goal_words, goal_words_lowered,
    interest_words, interest_words_lowered, mentions_chinese_words, mentions_concise_words,
    mentions_concise_words_lowered, mentions_detailed_words, mentions_detailed_words_lowered,
    mentions_direct_words, mentions_direct_words_lowered, mentions_english_words,
    mentions_english_words_lowered, mentions_event_words, mentions_event_words_lowered,
    mentions_gentle_words, mentions_gentle_words_lowered, mentions_goal_words,
    mentions_goal_words_lowered, mentions_interest_words, mentions_interest_words_lowered,
    mentions_plain_words, mentions_plain_words_lowered, mentions_request_words,
    mentions_request_words_lowered, mentions_technical_words, mentions_technical_words_lowered,
    plain_words, plain_words_lowered, request_words, request_words_lowered, technical_words,
    technical_words_lowered,
};

verus! {

/// A field and whether it was changed, after it was set to `value` where `hit`.
pub open spec fn set_to(hit: bool, field: (Seq<char>, bool), value: Seq<char>) -> (Seq<char>, bool) {
    if hit && field.0 != value {
        (value, true)
    } else {
        field
    }
}

/// A field and whether it was changed, after it was set to `value` where `hit`.
fn set_field(hit: bool, field: String, changed: bool, value: &str) -> (r: (String, bool))
    ensures
        (r.0@, r.1) == set_to(hit, (field@, changed), value@),
{
    if hit && !text_eq(&field, value) {
        (value.to_owned(), true)
    } else {
        (field, changed)
    }
}

/// A field and whether it was changed, after a line was added to it where `hit`.
fn add_to_field(hit: bool, field: String, text: &str, max_chars: usize, max_lines: usize) -> (r: (
    String,
    bool,
))
    ensures
        (r.0@, r.1) == set_to(
            hit,
            (field@, false),
            with_line(field@, clipped(text@, max_chars as int), max_lines as int),
        ),
{
    if hit {
        let v = add_unique_line(&field, &clip_chars(text, max_chars), max_lines);
        set_field(true, field, false, &v)
    } else {
        (field, false)
    }
}

/// The name that a message asks to be called by.
pub open spec fn name_in(text: Seq<char>, lower: Seq<char>) -> Option<Seq<char>> {
    if word_after(text, "叫我"@) is Some {
        word_after(text, "叫我"@)
    } else if word_after(text, "你可以叫我"@) is Some {
        word_after(text, "你可以叫我"@)
    } else if word_after(lower, "call me "@) is Some {
        word_after(lower, "call me "@)
    } else {
        word_after(lower, "my name is "@)
    }
}

/// The name that a message asks to be called by.
pub fn find_name(text: &str, lower: &str) -> (r: Option<String>)
    ensures
        crate::text::opt_text(r) == name_in(text@, lower@),
{
    let a = try_extract_after(text, "叫我");
    if a.is_some() {
        return a;
    }
    let b = try_extract_after(text, "你可以叫我");
    if b.is_some() {
        return b;
    }
    let c = try_extract_after(lower, "call me ");
    if c.is_some() {
        return c;
    }
    try_extract_after(lower, "my name is ")
}

/// The user profile after a message, and whether anything in it was changed.
/// `text` is the message with single blanks, `lower` the same in lower case.
pub open spec fn user_after(
    text: Seq<char>,
    lower: Seq<char>,
    u: UserProfile<Seq<char>>,
) -> (UserProfile<Seq<char>>, bool) {
    let name = match name_in(text, lower) {
        Some(n) => set_to(true, (u.preferred_name, false), n),
        None => (u.preferred_name, false),
    };
    let goals = set_to(
        has_any(text, goal_words()) || has_any(lower, goal_words_lowered()),
        (u.long_term_goals, false),
        with_line(u.long_term_goals, clipped(text, 220), 24),
    );
    let interests = set_to(
        has_any(text, interest_words()) || has_any(lower, interest_words_lowered()),
        (u.interests, false),
        with_line(u.interests, clipped(text, 220), 24),
    );
    let events = set_to(
        has_any(text, event_words()) || has_any(lower, event_words_lowered()),
        (u.important_experiences, false),
        with_line(u.important_experiences, clipped(text, 260), 30),
    );
    let language = set_to(
        has_any(text, english_words()) || has_any(lower, english_words_lowered()),
        set_to(has_any(text, chinese_words()), (u.language_preference, false), "zh"@),
        "en"@,
    );
    let notes = set_to(
        has_any(text, request_words()) || has_any(lower, request_words_lowered()),
        (u.notes, false),
        with_line(u.notes, clipped(text, 260), 32),
    );
    (
        UserProfile {
            preferred_name: name.0,
            long_term_goals: goals.0,
            interests: interests.0,
            important_experiences: events.0,
            language_preference: language.0,
            notes: notes.0,
            updated_at: u.updated_at,
        },
        name.1 || goals.1 || interests.1 || events.1 || language.1 || notes.1,
    )
}

/// The user profile after a message, and whether anything in it was changed.
pub fn update_user_profile(text: &str, lower: &str, user: UserProfile) -> (r: (UserProfile, bool))
    ensures
        (r.0@, r.1) == user_after(text@, lower@, user@),
{
    let (name, c1) = match find_name(text, lower) {
        Some(n) => set_field(true, user.preferred_name, false, &n),
        None => (user.preferred_name, false),
    };
    let goal_hit = mentions_goal_words(text) || mentions_goal_words_lowered(lower);
    let (goals, c2) = add_to_field(goal_hit, user.long_term_goals, text, 220, 24);
    let interest_hit = mentions_interest_words(text) || mentions_interest_words_lowered(lower);
    let (interests, c3) = add_to_field(interest_hit, user.interests, text, 220, 24);
    let event_hit = mentions_event_words(text) || mentions_event_words_lowered(lower);
    let (events, c4) = add_to_field(event_hit, user.important_experiences, text, 260, 30);
    let (zh, zh_changed) = set_field(
        mentions_chinese_words(text),
        user.language_preference,
        false,
        "zh",
    );
    let english_hit = mentions_english_words(text) || mentions_english_words_lowered(lower);
    let (language, c5) = set_field(english_hit, zh, zh_changed, "en");
    let request_hit = mentions_request_words(text) || mentions_request_words_lowered(lower);
    let (notes, c6) = add_to_field(request_hit, user.notes, text, 260, 32);
    (
        UserProfile {
            preferred_name: name,
            long_term_goals: goals,
            interests,
            important_experiences: events,
            language_preference: language,
            notes,
            updated_at: user.updated_at,
        },
        c1 || c2 || c3 || c4 || c5 || c6,
    )
}

/// The style profile after a message, and whether anything in it was changed.
/// `text` is the message with single blanks, `lower` the same in lower case.
pub open spec fn style_after(
    text: Seq<char>,
    lower: Seq<char>,
    p: StyleProfile<Seq<char>>,
) -> (StyleProfile<Seq<char>>, bool) {
    let wishes = set_to(
        has_any(text, request_words()) || has_any(lower, request_words_lowered()),
        (p.explicit_preferences, false),
        with_line(p.explicit_preferences, clipped(text, 260), 32),
    );
    let detail = set_to(
        has_any(text, detailed_words()) || has_any(lower, detailed_words_lowered()),
        set_to(
            has_any(text, concise_words()) || has_any(lower, concise_words_lowered()),
            (p.detail_level, false),
            "concise"@,
        ),
        "detailed"@,
    );
    let tone = set_to(
        has_any(text, gentle_words()) || has_any(lower, gentle_words_lowered()),
        set_to(
            has_any(text, direct_words()) || has_any(lower, direct_words_lowered()),
            (p.tone, false),
            "direct"@,
        ),
        "gentle"@,
    );
    let technical = set_to(
        has_any(text, plain_words()) || has_any(lower, plain_words_lowered()),
        set_to(
            has_any(text, technical_words()) || has_any(lower, technical_words_lowered()),
            (p.technical_level, false),
            "technical"@,
        ),
        "plain"@,
    );
    let language = set_to(true, (p.language_style, false), language_of(text));
    (
        StyleProfile {
            detail_level: detail.0,
            tone: tone.0,
            technical_level: technical.0,
            language_style: language.0,
            explicit_preferences: wishes.0,
            updated_at: p.updated_at,
        },
        wishes.1 || detail.1 || tone.1 || technical.1 || language.1,
    )
}

/// The style profile after a message, and whether anything in it was changed.
pub fn update_style_profile(text: &str, lower: &str, style: StyleProfile) -> (r: (
    StyleProfile,
    bool,
))
    ensures
        (r.0@, r.1) == style_after(text@, lower@, style@),
{
    let request_hit = mentions_request_words(text) || mentions_request_words_lowered(lower);
    let (wishes, c1) = add_to_field(request_hit, style.explicit_preferences, text, 260, 32);
    let concise_hit = mentions_concise_words(text) || mentions_concise_words_lowered(lower);
    let (d, dc) = set_field(concise_hit, style.detail_level, false, "concise");
    let detailed_hit = mentions_detailed_words(text) || mentions_detailed_words_lowered(lower);
    let (detail, c2) = set_field(detailed_hit, d, dc, "detailed");
    let direct_hit = mentions_direct_words(text) || mentions_direct_words_lowered(lower);
    let (t, tc) = set_field(direct_hit, style.tone, false, "direct");
    let gentle_hit = mentions_gentle_words(text) || mentions_gentle_words_lowered(lower);
    let (tone, c3) = set_field(gentle_hit, t, tc, "gentle");
    let technical_hit = mentions_technical_words(text) || mentions_technical_words_lowered(lower);
    let (l, lc) = set_field(technical_hit, style.technical_level, false, "technical");
    let plain_hit = mentions_plain_words(text) || mentions_plain_words_lowered(lower);
    let (technical, c4) = set_field(plain_hit, l, lc, "plain");
    let (language, c5) = set_field(
        true,
        style.language_style,
        false,
        detect_language_style(text),
    );
    (
        StyleProfile {
            detail_level: detail,
            tone,
            technical_level: technical,
            language_style: language,
            explicit_preferences: wishes,
            updated_at: style.updated_at,
        },
        c1 || c2 || c3 || c4 || c5,
    )
}

// ---------------------------------------------------------------------------
// Laws
// ---------------------------------------------------------------------------

/// A message that is taken into the profile of the user again finds nothing
/// more to change, and where nothing counts as changed the profile is as it
/// was.
pub proof fn law_user_after_twice(
    text: Seq<char>,
    lower: Seq<char>,
    u: UserProfile<Seq<char>>,
    now: Seq<char>,
)
    ensures
        ({
            let once = UserProfile { updated_at: now, ..user_after(text, lower, u).0 };
            user_after(text, lower, once).0 == once
        }),
        !user_after(text, lower, u).1 ==> user_after(text, lower, u).0 == u,
{
    law_adding_a_line_twice(u.long_term_goals, clipped(text, 220), 24);
    law_adding_a_line_twice(u.interests, clipped(text, 220), 24);
    law_adding_a_line_twice(u.important_experiences, clipped(text, 260), 30);
    law_adding_a_line_twice(u.notes, clipped(text, 260), 32);
    let once = UserProfile { updated_at: now, ..user_after(text, lower, u).0 };
    assert(user_after(text, lower, once).0 =~= once);
}

/// A message that is taken into the profile of the answers again finds nothing
/// more to change, and where nothing counts as changed the profile is as it
/// was.
pub proof fn law_style_after_twice(
    text: Seq<char>,
    lower: Seq<char>,
    p: StyleProfile<Seq<char>>,
    now: Seq<char>,
)
    ensures
        ({
            let once = StyleProfile { updated_at: now, ..style_after(text, lower, p).0 };
            style_after(text, lower, once).0 == once
        }),
        !style_after(text, lower, p).1 ==> style_after(text, lower, p).0 == p,
{
    law_adding_a_line_twice(p.explicit_preferences, clipped(text, 260), 32);
    let once = StyleProfile { updated_at: now, ..style_after(text, lower, p).0 };
    assert(style_after(text, lower, once).0 =~= once);
}

} // verus!
