//! What profiles and summaries hold after something was said.
use vstd::prelude::*;
use crate::context_laws::law_joined_has_parts;
use crate::db::memories::noted;
use crate::db::messages::{is_kept_after, writing_order};
use crate::db::recall_laws::law_notes_are_kept;
use crate::db::soundness::{distinct, memory_key};
use crate::db::store_laws::{lemma_left, lemma_same_rows};
use crate::db::Tables;
use crate::learning::{note_for, segment_row};
use crate::lines::{is_line, law_filled_lines, law_flattened_is_line, law_lines_read_back};
use crate::memory::{
    filled_lines, language_of, matchable, name_ends, newest, with_line, word_after, Candidate,
};
use crate::memory_laws::law_candidates_are_noted;
use crate::models::{Message, StyleProfile, UserProfile};
use crate::profile::{name_in, style_after, user_after};
use crate::stamps::Draw;
use crate::summary::{
    law_segments, lead_sentence, line_of, lines_of, segments_from, segments_of, sentence_length,
    summary_of, Segment,
};
use crate::text::{
    flattened, has_part, is_blank, is_white_space, joined, law_trimmed_of, lowercase, occurs_at,
    pieces, starts, text_le, trimmed,
};
use crate::word_laws::{
    has_chinese_words, has_concise_words, has_concise_words_lowered, has_detailed_words,
    has_detailed_words_lowered, has_direct_words, has_direct_words_lowered, has_english_words,
    has_english_words_lowered, has_event_words, has_event_words_lowered, has_gentle_words,
    has_gentle_words_lowered, has_goal_words, has_goal_words_lowered, has_interest_words,
    has_interest_words_lowered, has_plain_words, has_plain_words_lowered, has_request_words,
    has_request_words_lowered, has_technical_words, has_technical_words_lowered, law_chinese_words,
    law_concise_words, law_concise_words_lowered, law_detailed_words, law_detailed_words_lowered,
    law_direct_words, law_direct_words_lowered, law_english_words, law_english_words_lowered,
    law_event_words, law_event_words_lowered, law_gentle_words, law_gentle_words_lowered,
    law_goal_words, law_goal_words_lowered, law_interest_words, law_interest_words_lowered,
    law_plain_words, law_plain_words_lowered, law_request_words, law_request_words_lowered,
    law_technical_words, law_technical_words_lowered,
};

verus! {

// ---------------------------------------------------------------------------
// Lines
// ---------------------------------------------------------------------------

/// A line that is added to a list is in it afterwards, behind the others; what
/// was there stays, as long as there is room. A line that is there already is
/// not added again.
pub proof fn law_lines_are_added(base: Seq<char>, line: Seq<char>, max_lines: int)
    requires
        max_lines >= 1,
        flattened(trimmed(line)).len() > 0,
    ensures
        ({
            let clean = flattened(trimmed(line));
            let before = filled_lines(base);
            let after = filled_lines(with_line(base, line, max_lines));
            &&& after.contains(clean)
            &&& before.contains(clean) ==> after == before
            &&& !before.contains(clean) ==> after.last() == clean && after.len() <= max_lines
            &&& !before.contains(clean) && before.len() < max_lines ==> after == before.push(clean)
        }),
{
    let clean = flattened(trimmed(line));
    let items = filled_lines(base);
    law_filled_lines(base);
    law_flattened_is_line(trimmed(line));
    if items.contains(clean) {
        law_lines_read_back(items);
    } else {
        let all = items.push(clean);
        let kept = newest(all, max_lines);
        assert forall|i: int| 0 <= i < kept.len() implies is_line(#[trigger] kept[i]) by {
            assert(kept[i] == all[i + all.len() - kept.len()]);
        }
        law_lines_read_back(kept);
        assert(kept[kept.len() - 1] == clean);
    }
}

// ---------------------------------------------------------------------------
// Profiles
// ---------------------------------------------------------------------------

/// What is said goes into a list of the profile where `hit`, and the list stays
/// as it is where not.
pub open spec fn takes_in(
    hit: bool,
    before: Seq<char>,
    after: Seq<char>,
    text: Seq<char>,
    max: int,
) -> bool {
    &&& !hit ==> after == before
    &&& hit && text.len() <= max ==> filled_lines(after).contains(text)
}

/// The text has single blanks and none around it.
pub open spec fn is_flat(text: Seq<char>) -> bool {
    text.len() > 0 && trimmed(text) == text && flattened(text) == text
}

/// What the user says of goals, interests, events and wishes goes into these
/// lists of the profile, and into no other. A wish for a language is kept;
/// English wins over Chinese.
pub proof fn law_user_profile_learns(
    text: Seq<char>,
    lower: Seq<char>,
    u: UserProfile<Seq<char>>,
)
    requires
        is_flat(text),
    ensures
        ({
            let r = user_after(text, lower, u).0;
            let zh = has_chinese_words(text);
            let en = has_english_words(text) || has_english_words_lowered(lower);
            &&& takes_in(
                has_goal_words(text) || has_goal_words_lowered(lower),
                u.long_term_goals,
                r.long_term_goals,
                text,
                220,
            )
            &&& takes_in(
                has_interest_words(text) || has_interest_words_lowered(lower),
                u.interests,
                r.interests,
                text,
                220,
            )
            &&& takes_in(
                has_event_words(text) || has_event_words_lowered(lower),
                u.important_experiences,
                r.important_experiences,
                text,
                260,
            )
            &&& takes_in(
                has_request_words(text) || has_request_words_lowered(lower),
                u.notes,
                r.notes,
                text,
                260,
            )
            &&& en ==> r.language_preference == "en"@
            &&& zh && !en ==> r.language_preference == "zh"@
            &&& !zh && !en ==> r.language_preference == u.language_preference
            &&& match name_in(text, lower) {
                Some(n) => r.preferred_name == n,
                None => r.preferred_name == u.preferred_name,
            }
            &&& user_after(text, lower, u).1 || r == u
        }),
{
    law_goal_words(text);
    law_goal_words_lowered(lower);
    law_interest_words(text);
    law_interest_words_lowered(lower);
    law_event_words(text);
    law_event_words_lowered(lower);
    law_request_words(text);
    law_request_words_lowered(lower);
    law_chinese_words(text);
    law_english_words(text);
    law_english_words_lowered(lower);
    law_lines_are_added(u.long_term_goals, text, 24);
    law_lines_are_added(u.interests, text, 24);
    law_lines_are_added(u.important_experiences, text, 30);
    law_lines_are_added(u.notes, text, 32);
    let r = user_after(text, lower, u);
    if !r.1 {
        assert(r.0 =~= u);
    }
}

/// A name is taken from behind the words that announce it: where nothing comes
/// before them, `叫我` first, then `你可以叫我`, `call me` and `my name is`.
pub proof fn law_names_are_announced(text: Seq<char>, lower: Seq<char>)
    ensures
        word_after(text, "叫我"@) is Some ==> name_in(text, lower) == word_after(text, "叫我"@),
        word_after(text, "叫我"@) is None && word_after(text, "你可以叫我"@) is None && word_after(
            lower,
            "call me "@,
        ) is Some ==> name_in(text, lower) == word_after(lower, "call me "@),
        word_after(text, "叫我"@) is None && word_after(text, "你可以叫我"@) is None && word_after(
            lower,
            "call me "@,
        ) is None ==> name_in(text, lower) == word_after(lower, "my name is "@),
{
}

/// The character ends a name.
pub open spec fn ends_name(c: char) -> bool {
    ||| c == ','
    ||| c == '。'
    ||| c == '，'
    ||| c == '.'
    ||| c == '!'
    ||| c == '！'
    ||| c == '?'
    ||| c == '？'
    ||| c == '\n'
    ||| c == ' '
}

/// A name is the word behind the first place where it is announced, up to a
/// blank or a mark.
pub proof fn law_names_are_words(
    a: Seq<char>,
    key: Seq<char>,
    name: Seq<char>,
    rest: Seq<char>,
)
    requires
        0 < name.len() <= 24,
        forall|i: int|
            0 <= i < name.len() ==> !ends_name(#[trigger] name[i]) && !is_white_space(name[i]),
        rest.len() == 0 || (ends_name(rest[0]) && !is_white_space(rest.last())),
        forall|k: int| 0 <= k < a.len() ==> !#[trigger] occurs_at(a + key + name + rest, key, k),
    ensures
        word_after(a + key + name + rest, key) == Some(name),
{
    let s = a + key + name + rest;
    let n = a.len() as int;
    let none = Seq::<char>::empty();
    assert(s.subrange(n, n + key.len()) =~= key);
    lemma_found_at(s, key, 0, n);
    let tail = name + rest;
    assert(s.skip(n + key.len()) =~= tail);
    assert(!is_white_space(name[0]) && !is_white_space(name[name.len() - 1]));
    assert(tail[0] == name[0]);
    if rest.len() > 0 {
        assert(tail.last() == rest.last());
    } else {
        assert(tail.last() == name[name.len() - 1]);
    }
    law_trimmed_of(none, tail, none);
    assert(none + tail + none =~= tail);
    law_trimmed_of(none, name, none);
    assert(none + name + none =~= name);
    let sep = |c: char| name_ends().contains(c);
    assert forall|i: int| 0 <= i < name.len() implies !sep(#[trigger] name[i]) by {
        lemma_name_ends(name[i]);
    }
    if rest.len() > 0 {
        lemma_name_ends(rest[0]);
    }
    lemma_first_piece(name, rest, sep);
}

proof fn lemma_name_ends(c: char)
    ensures
        name_ends().contains(c) == ends_name(c),
{
    let all = name_ends();
    assert(all.len() == 10);
    assert(all[0] == ',' && all[1] == '。' && all[2] == '，' && all[3] == '.' && all[4] == '!');
    assert(all[5] == '！' && all[6] == '?' && all[7] == '？' && all[8] == '\n' && all[9] == ' ');
    if all.contains(c) {
        let k = all.index_of(c);
        assert(k == 0 || k == 1 || k == 2 || k == 3 || k == 4 || k == 5 || k == 6 || k == 7 || k
            == 8 || k == 9);
    }
}

/// The first piece of a text ends before the first separator.
proof fn lemma_first_piece(x: Seq<char>, rest: Seq<char>, sep: spec_fn(char) -> bool)
    requires
        forall|i: int| 0 <= i < x.len() ==> !sep(#[trigger] x[i]),
        rest.len() == 0 || sep(rest[0]),
    ensures
        pieces(x + rest, sep).len() > 0,
        pieces(x + rest, sep)[0] == x,
{
    crate::text::lemma_one_piece(x, sep);
    if rest.len() == 0 {
        assert(x + rest =~= x);
    } else {
        let head = x.push(rest[0]);
        assert(head.drop_last() =~= x);
        assert(pieces(head, sep) =~= seq![x, Seq::empty()]);
        assert(x + rest =~= head + rest.skip(1));
        crate::text::lemma_pieces_in_two(head, rest.skip(1), sep);
        assert(pieces(head, sep).drop_last() =~= seq![x]);
    }
}

proof fn lemma_found_at(s: Seq<char>, p: Seq<char>, from: int, at: int)
    requires
        0 <= from <= at,
        occurs_at(s, p, at),
        forall|k: int| from <= k < at ==> !#[trigger] occurs_at(s, p, k),
    ensures
        crate::text::found_from(s, p, from) == Some(at),
    decreases at - from,
{
    if from < at {
        lemma_found_at(s, p, from + 1, at);
    }
}

/// How the user wants to be answered is kept: of two wishes against each other
/// the second named here wins, and without a wish nothing changes. The language
/// is that of what is said.
pub proof fn law_style_profile_learns(
    text: Seq<char>,
    lower: Seq<char>,
    p: StyleProfile<Seq<char>>,
)
    requires
        is_flat(text),
    ensures
        ({
            let r = style_after(text, lower, p).0;
            let concise = has_concise_words(text) || has_concise_words_lowered(lower);
            let detailed = has_detailed_words(text) || has_detailed_words_lowered(lower);
            let direct = has_direct_words(text) || has_direct_words_lowered(lower);
            let gentle = has_gentle_words(text) || has_gentle_words_lowered(lower);
            let technical = has_technical_words(text) || has_technical_words_lowered(lower);
            let plain = has_plain_words(text) || has_plain_words_lowered(lower);
            &&& detailed ==> r.detail_level == "detailed"@
            &&& concise && !detailed ==> r.detail_level == "concise"@
            &&& !concise && !detailed ==> r.detail_level == p.detail_level
            &&& gentle ==> r.tone == "gentle"@
            &&& direct && !gentle ==> r.tone == "direct"@
            &&& !direct && !gentle ==> r.tone == p.tone
            &&& plain ==> r.technical_level == "plain"@
            &&& technical && !plain ==> r.technical_level == "technical"@
            &&& !technical && !plain ==> r.technical_level == p.technical_level
            &&& r.language_style == language_of(text)
            &&& takes_in(
                has_request_words(text) || has_request_words_lowered(lower),
                p.explicit_preferences,
                r.explicit_preferences,
                text,
                260,
            )
            &&& style_after(text, lower, p).1 || r == p
        }),
{
    law_request_words(text);
    law_request_words_lowered(lower);
    law_concise_words(text);
    law_concise_words_lowered(lower);
    law_detailed_words(text);
    law_detailed_words_lowered(lower);
    law_direct_words(text);
    law_direct_words_lowered(lower);
    law_gentle_words(text);
    law_gentle_words_lowered(lower);
    law_technical_words(text);
    law_technical_words_lowered(lower);
    law_plain_words(text);
    law_plain_words_lowered(lower);
    law_lines_are_added(p.explicit_preferences, text, 32);
    let r = style_after(text, lower, p);
    if !r.1 {
        assert(r.0 =~= p);
    }
}

/// The places of a text at which a character of some kind stands.
pub open spec fn places(s: Seq<char>, p: spec_fn(char) -> bool) -> Set<int> {
    Set::new(|i: int| 0 <= i < s.len() && p(s[i]))
}

pub proof fn lemma_places(s: Seq<char>, p: spec_fn(char) -> bool)
    ensures
        places(s, p).finite(),
        places(s, p).len() == s.filter(p).len(),
    decreases s.len(),
{
    reveal(Seq::filter);
    if s.len() == 0 {
        assert(places(s, p) =~= Set::empty());
    } else {
        let front = s.drop_last();
        let n = s.len() - 1;
        lemma_places(front, p);
        if p(s.last()) {
            assert(places(s, p) =~= places(front, p).insert(n));
            assert(!places(front, p).contains(n));
        } else {
            assert(places(s, p) =~= places(front, p));
        }
    }
}

/// A text is Chinese where it has more than twice as many Chinese characters as
/// Latin letters, English the other way round, and mixed between the two.
pub proof fn law_languages_are_told_apart(s: Seq<char>)
    ensures
        ({
            let en = places(s, |c: char| 'A' <= c <= 'Z' || 'a' <= c <= 'z').len();
            let zh = places(s, |c: char| '\u{4e00}' <= c <= '\u{9fff}').len();
            &&& language_of(s) == "zh"@ <==> zh > 2 * en
            &&& language_of(s) == "en"@ <==> en > 2 * zh
            &&& language_of(s) == "mixed"@ <==> zh <= 2 * en && en <= 2 * zh
        }),
{
    let latin = |c: char| 'A' <= c <= 'Z' || 'a' <= c <= 'z';
    let han = |c: char| '\u{4e00}' <= c <= '\u{9fff}';
    lemma_places(s, latin);
    lemma_places(s, han);
    let l = |c: char| crate::memory::is_latin(c);
    let h = |c: char| crate::memory::is_han(c);
    lemma_places(s, l);
    lemma_places(s, h);
    assert(places(s, latin) =~= places(s, l));
    assert(places(s, han) =~= places(s, h));
    reveal_strlit("zh");
    reveal_strlit("en");
    reveal_strlit("mixed");
    assert("zh"@[0] != "en"@[0]);
    assert("mixed"@.len() == 5);
}

// ---------------------------------------------------------------------------
// Summaries
// ---------------------------------------------------------------------------

/// The character ends a sentence.
pub open spec fn is_full_stop(c: char) -> bool {
    c == '。' || c == '！' || c == '？' || c == '.' || c == '!' || c == '?'
}

/// The first sentence of a text with single blanks goes up to its first full
/// stop, where it is not too long.
pub proof fn law_first_sentences(a: Seq<char>, stop: char, b: Seq<char>, s: Seq<char>, max: int)
    requires
        flattened(s) == a.push(stop) + b,
        a.len() > 0,
        !is_white_space(a[0]),
        is_full_stop(stop),
        forall|i: int| 0 <= i < a.len() ==> !is_full_stop(#[trigger] a[i]),
        a.len() < max,
    ensures
        lead_sentence(s, max) == a.push(stop),
{
    let clean = flattened(s);
    let none = Seq::<char>::empty();
    lemma_sentence_length(clean, 0, a.len() as int, max);
    assert(clean.take(a.len() as int + 1) =~= a.push(stop));
    let t = a.push(stop);
    assert(!is_white_space(stop));
    law_trimmed_of(none, t, none);
    assert(none + t + none =~= t);
}

proof fn lemma_sentence_length(s: Seq<char>, from: int, at: int, max: int)
    requires
        0 <= from <= at < s.len(),
        at < max,
        is_full_stop(s[at]),
        forall|i: int| from <= i < at ==> !is_full_stop(#[trigger] s[i]),
    ensures
        sentence_length(s, from, max) == at + 1,
    decreases at - from,
{
    if from < at {
        assert(!is_full_stop(s[from]));
        lemma_sentence_length(s, from + 1, at, max);
    }
}

/// A message gives a line where the user or the assistant said something of at
/// least eight characters: who spoke, and the first sentence.
pub proof fn law_lines_of_summaries(role: Seq<char>, content: Seq<char>)
    ensures
        ({
            let body = lead_sentence(content, 170);
            &&& role == "user"@ && body.len() >= 8 ==> line_of(role, content) == Some(
                "- User: "@ + body,
            )
            &&& role == "assistant"@ && body.len() >= 8 ==> line_of(role, content) == Some(
                "- Assistant: "@ + body,
            )
            &&& role != "user"@ && role != "assistant"@ ==> line_of(role, content) is None
            &&& body.len() < 8 ==> line_of(role, content) is None
            &&& body.len() <= 170
        }),
{
    reveal_strlit("user");
    reveal_strlit("assistant");
    assert("user"@.len() != "assistant"@.len());
}

/// A summary holds the line of every message that has one, each once, as long
/// as there are no more than sixteen and all fit.
pub proof fn law_summaries_hold_the_lines(items: Seq<Message<Seq<char>>>, i: int)
    requires
        0 <= i < items.len() <= 16,
        line_of(items[i].role, items[i].content) is Some,
        joined(lines_of(items), "\n"@).len() <= 3000,
    ensures
        has_part(summary_of(items), line_of(items[i].role, items[i].content)->0),
        starts(summary_of(items), "Earlier conversation summary segment:\n"@),
        forall|a: int, b: int|
            0 <= a < b < lines_of(items).len() ==> #[trigger] lines_of(items)[a]
                != #[trigger] lines_of(items)[b],
{
    lemma_lines(items, items.len() as int);
    assert(items.take(items.len() as int) =~= items);
    let lines = lines_of(items);
    let line = line_of(items[i].role, items[i].content)->0;
    assert(lines.contains(line));
    let rest = joined(lines, "\n"@);
    law_joined_has_parts(lines, "\n"@, lines.index_of(line));
    let head = "Earlier conversation summary segment:\n"@;
    reveal_strlit("Earlier conversation summary segment:\n");
    let s = summary_of(items);
    assert(s == head + rest);
    assert(s.take(head.len() as int) =~= head);
    let at = choose|at: int| occurs_at(rest, line, at);
    let n = head.len() as int;
    assert(s.subrange(n + at, n + at + line.len()) =~= rest.subrange(at, at + line.len()));
    assert(occurs_at(s, line, n + at));
}

proof fn lemma_lines(items: Seq<Message<Seq<char>>>, n: int)
    requires
        0 <= n <= items.len() <= 16,
    ensures
        ({
            let lines = lines_of(items.take(n));
            &&& lines.len() <= n
            &&& forall|i: int|
                0 <= i < n && line_of((#[trigger] items[i]).role, items[i].content) is Some
                    ==> lines.contains(line_of(items[i].role, items[i].content)->0)
            &&& forall|a: int, b: int|
                0 <= a < b < lines.len() ==> #[trigger] lines[a] != #[trigger] lines[b]
        }),
    decreases n,
{
    if n > 0 {
        lemma_lines(items, n - 1);
        let part = items.take(n);
        assert(part.drop_last() =~= items.take(n - 1));
        assert(part.last() == items[n - 1]);
        let before = lines_of(items.take(n - 1));
        let lines = lines_of(part);
        assert forall|x: Seq<char>| before.contains(x) implies #[trigger] lines.contains(x) by {
            assert(lines[before.index_of(x)] == x);
        }
        assert forall|i: int|
            0 <= i < n && line_of((#[trigger] items[i]).role, items[i].content) is Some implies
            lines.contains(line_of(items[i].role, items[i].content)->0) by {
            if i == n - 1 {
                let line = line_of(items[i].role, items[i].content)->0;
                if !before.contains(line) {
                    assert(lines[before.len() as int] == line);
                }
            }
        }
        assert forall|a: int, b: int| 0 <= a < b < lines.len() implies #[trigger] lines[a]
            != #[trigger] lines[b] by {
            if b == before.len() {
                assert(before.contains(before[a]));
            }
        }
    }
}

/// Messages are summarised in segments of eighteen, the last of at least eight,
/// one after the other from the oldest on; the newest eighteen are left alone.
/// Where the oldest have anything to say, there is a segment.
pub proof fn law_old_messages_are_summarised(items: Seq<Message<Seq<char>>>)
    requires
        items.len() <= usize::MAX,
    ensures
        items.len() < 26 ==> segments_of(items).len() == 0,
        items.len() >= 36 && !is_blank(summary_of(items.subrange(0, 18))) ==> segments_of(
            items,
        ).len() > 0 && segments_of(items)[0].start == 0 && segments_of(items)[0].count == 18
            && segments_of(items)[0].summary == summary_of(items.subrange(0, 18)),
        26 <= items.len() < 36 && !is_blank(summary_of(items.subrange(0, items.len() - 18)))
            ==> segments_of(items).len() == 1 && segments_of(items)[0].start == 0 && segments_of(
            items,
        )[0].count == items.len() - 18,
        forall|i: int|
            0 <= i < segments_of(items).len() ==> {
                let s = #[trigger] segments_of(items)[i];
                &&& 8 <= s.count <= 18
                &&& s.start == 18 * i
                &&& s.start + s.count + 18 <= items.len()
            },
{
    law_segments(items);
    reveal_with_fuel(segments_from, 2);
    lemma_starts(items, segments_of(items).len() as int);
}

proof fn lemma_starts(items: Seq<Message<Seq<char>>>, n: int)
    requires
        items.len() <= usize::MAX,
        0 <= n <= segments_of(items).len(),
    ensures
        forall|i: int| 0 <= i < n ==> (#[trigger] segments_of(items)[i]).start == 18 * i,
    decreases n,
{
    law_segments(items);
    if n > 0 {
        lemma_starts(items, n - 1);
        let s = segments_of(items)[n - 1];
        if n > 1 {
            let before = segments_of(items)[n - 2];
            assert(before.start == 18 * (n - 2));
            assert(before.count == 18);
        }
    }
}

// ---------------------------------------------------------------------------
// What is stored
// ---------------------------------------------------------------------------

/// What the user says goes into both stored profiles, as it is with single
/// blanks, and nothing else is touched.
pub proof fn law_teaching_reaches_the_profiles(
    t: Tables,
    text: Seq<char>,
    user_now: Seq<char>,
    style_now: Seq<char>,
)
    requires
        is_flat(text),
        text.len() <= 220,
    ensures
        ({
            let lower = lowercase(text);
            let u = t.taught(text, user_now, style_now);
            &&& has_interest_words(text) || has_interest_words_lowered(lower) ==> filled_lines(
                u.user(user_now).interests,
            ).contains(text)
            &&& has_goal_words(text) || has_goal_words_lowered(lower) ==> filled_lines(
                u.user(user_now).long_term_goals,
            ).contains(text)
            &&& has_event_words(text) || has_event_words_lowered(lower) ==> filled_lines(
                u.user(user_now).important_experiences,
            ).contains(text)
            &&& has_request_words(text) || has_request_words_lowered(lower) ==> filled_lines(
                u.user(user_now).notes,
            ).contains(text) && filled_lines(u.style(style_now).explicit_preferences).contains(text)
            &&& u.style(style_now).language_style == language_of(text)
            &&& has_detailed_words(text) || has_detailed_words_lowered(lower) ==> u.style(
                style_now,
            ).detail_level == "detailed"@
            &&& u.memories == t.memories
            &&& u.messages == t.messages
            &&& u.settings == t.settings
        }),
{
    let lower = lowercase(text);
    assert(flattened(trimmed(text)) == text);
    law_user_profile_learns(text, lower, t.user(user_now));
    law_style_profile_learns(text, lower, t.style(style_now));
}

/// Something that is to be remembered in one conversation is a memory of that
/// conversation afterwards, and something for all is one for all; the memory
/// holds its text.
pub proof fn law_candidates_are_remembered(
    t: Tables,
    c: Candidate<Seq<char>>,
    conversation_id: Seq<char>,
    source: Seq<char>,
    draw: Draw,
)
    requires
        trimmed(c.content) == c.content,
        c.content.len() >= 10,
        matchable(c.content).len() > 0,
        trimmed(conversation_id) == conversation_id,
        conversation_id.len() > 0,
        trimmed(source) == source,
        source.len() > 0,
        distinct(t.memories, memory_key()),
        forall|i: int|
            0 <= i < t.memories.len() ==> trimmed((#[trigger] t.memories[i]).content).len()
                + c.content.len() < 400 && t.memories[i].id != draw.id,
    ensures
        ({
            let r = t.all_remembered(
                seq![c],
                Some(conversation_id),
                Some(source),
                seq![draw],
            );
            &&& r.error is None
            &&& exists|k: int|
                0 <= k < r.tables.memories.len() && has_part(
                    (#[trigger] r.tables.memories[k]).content,
                    c.content,
                ) && r.tables.memories[k].scope == (if c.global {
                    "global"@
                } else {
                    "conversation"@
                }) && r.tables.memories[k].conversation_id == (if c.global {
                    None
                } else {
                    Some(conversation_id)
                })
            &&& r.tables == (Tables { memories: r.tables.memories, ..t })
        }),
{
    law_candidates_are_noted(c, conversation_id, source);
    let note = note_for(c, Some(conversation_id), Some(source))->0;
    law_notes_are_kept(t.memories, note, draw.id, draw.now);
    reveal_with_fuel(Tables::all_remembered, 2);
    assert(seq![c].drop_last() =~= Seq::empty());
    let found = crate::table::first_where(t.memories, crate::db::is_memory(draw.id));
    crate::table::lemma_first_where(t.memories, crate::db::is_memory(draw.id));
    assert(found is None);
    assert(noted(t.memories, note, draw.id, draw.now) is Ok);
}

/// Candidates are remembered one after the other; where one is refused, those
/// before it stay remembered.
pub proof fn law_candidates_in_a_row(
    t: Tables,
    list: Seq<Candidate<Seq<char>>>,
    c: Candidate<Seq<char>>,
    conversation_id: Option<Seq<char>>,
    source: Option<Seq<char>>,
    draws: Seq<Draw>,
)
    ensures
        ({
            let before = t.all_remembered(list, conversation_id, source, draws);
            let after = t.all_remembered(list.push(c), conversation_id, source, draws);
            let draw = draws[list.len() as int];
            &&& before.error is Some ==> after == before
            &&& before.error is None ==> match before.tables.remembered(
                note_for(c, conversation_id, source),
                draw.id,
                draw.now,
            ) {
                Ok(u) => after.tables == u && after.error is None,
                Err(e) => after.tables == before.tables && after.error == Some(e),
            }
        }),
        t.all_remembered(Seq::empty(), conversation_id, source, draws).tables == t,
        t.all_remembered(Seq::empty(), conversation_id, source, draws).error is None,
{
    assert(list.push(c).drop_last() =~= list);
}

/// The row of a segment says what its messages said, and from which message to
/// which it goes.
pub proof fn law_segments_are_stored(
    t: Tables,
    conversation_id: Seq<char>,
    pending: Seq<Message<Seq<char>>>,
    s: Segment<Seq<char>>,
    draw: Draw,
)
    requires
        0 < s.count <= 1000,
        s.start + s.count <= pending.len(),
    ensures
        ({
            let row = segment_row(t, conversation_id, pending, s, draw);
            let first = pending[s.start as int];
            let last = pending[s.start + s.count - 1];
            &&& row.id == draw.id
            &&& row.conversation_id == conversation_id
            &&& row.summary == s.summary
            &&& row.covered_start_message_id == first.id
            &&& row.covered_start_created_at == first.created_at
            &&& row.covered_end_message_id == last.id
            &&& row.covered_end_created_at == last.created_at
            &&& row.source_message_count == s.count
            &&& row.created_at == draw.now
        }),
{
}

/// The messages that are still to be summarised are those of the conversation
/// that were not deleted and were written after the last summary, from the
/// oldest on.
pub proof fn law_later_messages_are_summarised(
    t: Tables,
    conversation_id: Seq<char>,
    marker: Seq<char>,
    limit: int,
    m: Message<Seq<char>>,
)
    requires
        0 < t.messages.len() <= limit,
        marker.len() > 0,
    ensures
        t.messages_after(conversation_id, marker, limit).contains(m) <==> t.messages.contains(m)
            && m.conversation_id == conversation_id && m.deleted_at is None && !text_le(
            m.created_at,
            marker,
        ),
{
    let p = is_kept_after(conversation_id, marker);
    lemma_left(t.messages, p);
    lemma_same_rows(t.messages.filter(p), writing_order());
    lemma_left_len(t.messages, p);
}

proof fn lemma_left_len<A>(s: Seq<A>, p: spec_fn(A) -> bool)
    ensures
        s.filter(p).len() <= s.len(),
    decreases s.len(),
{
    reveal(Seq::filter);
    if s.len() > 0 {
        lemma_left_len(s.drop_last(), p);
    }
}

/// Where a list is full, its oldest lines make room for a new one.
pub proof fn law_oldest_lines_make_room(base: Seq<char>, line: Seq<char>, max_lines: int)
    requires
        1 <= max_lines <= filled_lines(base).len(),
        flattened(trimmed(line)).len() > 0,
        !filled_lines(base).contains(flattened(trimmed(line))),
    ensures
        filled_lines(with_line(base, line, max_lines)) == filled_lines(base).skip(
            filled_lines(base).len() + 1 - max_lines,
        ).push(flattened(trimmed(line))),
{
    let clean = flattened(trimmed(line));
    let items = filled_lines(base);
    law_filled_lines(base);
    law_flattened_is_line(trimmed(line));
    let all = items.push(clean);
    let kept = newest(all, max_lines);
    assert forall|i: int| 0 <= i < kept.len() implies is_line(#[trigger] kept[i]) by {
        assert(kept[i] == all[i + all.len() - kept.len()]);
    }
    law_lines_read_back(kept);
    assert(kept =~= items.skip(items.len() + 1 - max_lines).push(clean));
}

/// A first sentence that is too long is cut.
pub proof fn law_long_sentences_are_cut(s: Seq<char>, max: int)
    requires
        max >= 1,
        flattened(s).len() >= max,
        forall|i: int| 0 <= i < max ==> !is_full_stop(#[trigger] flattened(s)[i]),
    ensures
        lead_sentence(s, max) == trimmed(flattened(s).take(max)),
{
    let clean = flattened(s);
    lemma_cut_length(clean, 0, max);
    crate::files::lemma_trimmed_part(clean.take(max));
}

proof fn lemma_cut_length(s: Seq<char>, from: int, max: int)
    requires
        0 <= from < max <= s.len(),
        forall|i: int| 0 <= i < max ==> !is_full_stop(#[trigger] s[i]),
    ensures
        sentence_length(s, from, max) == max,
    decreases max - from,
{
    assert(!is_full_stop(s[from]));
    if from + 1 < max {
        lemma_cut_length(s, from + 1, max);
    }
}

/// What is still to be summarised begins behind what the last summary covers; in
/// a conversation without one everything is.
pub proof fn law_summarising_goes_on(t: Tables, id: Seq<char>)
    ensures
        t.summarised_until(id) is None ==> t.unsummarised(id) == t.messages_after(
            id,
            Seq::empty(),
            6000,
        ),
        t.summarised_until(id) matches Some(until) ==> t.unsummarised(id) == t.messages_after(
            id,
            trimmed(until),
            6000,
        ),
{
}

/// Without a marker all messages of a conversation that were not deleted are
/// taken, from the oldest on.
pub proof fn law_all_messages_are_taken(t: Tables, id: Seq<char>, limit: int)
    requires
        0 < t.messages.len() <= limit,
    ensures
        forall|m: Message<Seq<char>>| #[trigger]
            t.messages_after(id, Seq::empty(), limit).contains(m) <==> t.messages.contains(m)
                && m.conversation_id == id && m.deleted_at is None,
        forall|i: int, j: int|
            0 <= i <= j < t.messages_after(id, Seq::empty(), limit).len() ==> text_le(
                (#[trigger] t.messages_after(id, Seq::empty(), limit)[i]).created_at,
                (#[trigger] t.messages_after(id, Seq::empty(), limit)[j]).created_at,
            ),
{
    let p = is_kept_after(id, Seq::empty());
    lemma_left(t.messages, p);
    let kept = t.messages.filter(p);
    lemma_same_rows(kept, writing_order());
    lemma_left_len(t.messages, p);
    crate::db::messages::law_writing_order_is_order();
    crate::sorting::law_sorted(kept, writing_order());
    let all = t.messages_after(id, Seq::empty(), limit);
    assert(all == crate::sorting::sorted(kept, writing_order()));
    assert forall|i: int, j: int| 0 <= i <= j < all.len() implies text_le(
        (#[trigger] all[i]).created_at,
        (#[trigger] all[j]).created_at,
    ) by {
        assert(writing_order()(all[i], all[j]));
    }
}

} // verus!
