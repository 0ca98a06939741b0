//! What a model is told, by what was said and what is stored.
use vstd::prelude::*;
use crate::budget::{
    at_least_input, chosen, context, ends_with_input, fitting, input_message, pinned_tokens,
    sent_messages, talk, with_input,
};
use crate::context::{
    file_heading, file_lines, gist_lines, memory_lines, messages_tokens, pinned_sections,
    profile_lines, raw_lines, section, summary_lines, tokens,
};
use crate::chat::{context_limit, memory_limit, recent_limit};
use crate::db::messages::page_from_end;
use crate::db::Tables;
use crate::models::{
    ApiMessage, ChatSettings, ConversationFile, Memory, MemoryRow, Message, StyleProfile,
    SummaryRecord, UserProfile,
};
use crate::numbers::decimal;
use crate::text::{has_part, joined, occurs_at, starts, trimmed};

verus! {

// ---------------------------------------------------------------------------
// The talk
// ---------------------------------------------------------------------------

/// A message that is sent says what a stored message says, in its role: all of
/// it, or the first 7000 characters where it is longer.
pub open spec fn says(a: ApiMessage<Seq<char>>, m: Message<Seq<char>>) -> bool {
    &&& a.role == m.role
    &&& m.content.len() <= 7000 ==> a.content == m.content
    &&& m.content.len() > 7000 ==> a.content == m.content.take(7000)
}

/// The user or the assistant says something in the message.
pub open spec fn is_spoken(m: Message<Seq<char>>) -> bool {
    &&& m.role == "user"@ || m.role == "assistant"@
    &&& trimmed(m.content).len() > 0
}

/// Each message of the talk is one that the user or the assistant said, in the
/// role in which it was said; reasoning comes along only where it is asked for
/// and the assistant spoke. The messages keep their order.
pub proof fn law_talk_is_what_was_said(ms: Seq<Message<Seq<char>>>, replay: bool) -> (from: Seq<int>)
    ensures
        from.len() == talk(ms, replay).len(),
        forall|k: int|
            0 <= k < from.len() ==> {
                &&& 0 <= #[trigger] from[k] < ms.len()
                &&& is_spoken(ms[from[k]])
                &&& says(talk(ms, replay)[k], ms[from[k]])
                &&& talk(ms, replay)[k].reasoning_content is Some ==> replay && ms[from[k]].role
                    == "assistant"@
            },
        forall|k: int, l: int| 0 <= k < l < from.len() ==> #[trigger] from[k] < #[trigger] from[l],
        forall|i: int|
            0 <= i < ms.len() && is_spoken(#[trigger] ms[i]) ==> exists|k: int|
                0 <= k < from.len() && #[trigger] from[k] == i,
    decreases ms.len(),
{
    if ms.len() == 0 {
        Seq::empty()
    } else {
        let front = ms.drop_last();
        let n = ms.len() - 1;
        let before = law_talk_is_what_was_said(front, replay);
        let all = talk(ms, replay);
        assert forall|i: int| 0 <= i < n implies front[i] == #[trigger] ms[i] by {}
        if is_spoken(ms[n]) {
            let from = before.push(n);
            assert forall|k: int| 0 <= k < from.len() implies {
                &&& 0 <= #[trigger] from[k] < ms.len()
                &&& is_spoken(ms[from[k]])
                &&& says(all[k], ms[from[k]])
                &&& all[k].reasoning_content is Some ==> replay && ms[from[k]].role == "assistant"@
            } by {
                if k < before.len() {
                    assert(from[k] == before[k]);
                }
            }
            assert forall|k: int, l: int| 0 <= k < l < from.len() implies #[trigger] from[k]
                < #[trigger] from[l] by {
                assert(from[k] == before[k]);
                if l < before.len() {
                    assert(from[l] == before[l]);
                }
            }
            assert forall|i: int| 0 <= i < ms.len() && is_spoken(#[trigger] ms[i]) implies exists|
                k: int,
            |
                0 <= k < from.len() && #[trigger] from[k] == i by {
                if i < n {
                    assert(is_spoken(front[i]));
                    let k = choose|k: int| 0 <= k < before.len() && #[trigger] before[k] == i;
                    assert(from[k] == i);
                } else {
                    assert(from[before.len() as int] == i);
                }
            }
            from
        } else {
            assert forall|i: int| 0 <= i < ms.len() && is_spoken(#[trigger] ms[i]) implies exists|
                k: int,
            |
                0 <= k < before.len() && #[trigger] before[k] == i by {
                assert(is_spoken(front[i]));
            }
            before
        }
    }
}

/// A message that is sent is what the user says now: all of it, or its
/// beginning where it is long.
pub open spec fn is_input(a: ApiMessage<Seq<char>>, input: Seq<char>, max_context: int) -> bool {
    &&& a.role == "user"@
    &&& a.reasoning_content is None
    &&& a.content.len() <= input.len()
    &&& a.content == input.take(a.content.len() as int)
    &&& input.len() <= 1200 || input.len() <= 2 * max_context && input.len() <= 24000 ==> a.content
        == input
}

/// What a model is told begins with one message of the system. Each other one
/// is a message that the user or the assistant said, in that role, or what the
/// user says now.
pub proof fn law_told_is_what_was_said(
    pinned: Seq<Seq<char>>,
    optional: Seq<Seq<char>>,
    recent: Seq<Message<Seq<char>>>,
    input: Seq<char>,
    max_context: int,
    replay: bool,
)
    ensures
        ({
            let out = context(pinned, optional, recent, input, max_context, replay);
            &&& out.len() >= 2
            &&& out[0].role == "system"@
            &&& forall|k: int|
                1 <= k < out.len() ==> {
                    ||| is_input(#[trigger] out[k], input, max_context)
                    ||| exists|i: int|
                        0 <= i < recent.len() && is_spoken(#[trigger] recent[i]) && says(
                            out[k],
                            recent[i],
                        )
                }
        }),
{
    let all = talk(recent, replay);
    let now = input_message(input, max_context);
    let has_input = ends_with_input(recent, input);
    let from = law_talk_is_what_was_said(recent, replay);
    crate::budget::law_newest_messages_are_sent(pinned, recent, input, max_context, replay);
    let sent = sent_messages(pinned, recent, input, max_context, replay);
    let n = choose|n: int|
        0 <= n <= all.len() && sent == at_least_input(
            with_input(#[trigger] all.skip(n), now, has_input),
            now,
        );
    let out = context(pinned, optional, recent, input, max_context, replay);
    assert(is_input(now, input, max_context)) by {
        assert(now.content =~= input.take(now.content.len() as int));
        if input.len() <= now.content.len() {
            assert(now.content =~= input);
        }
    }
    assert forall|k: int| 1 <= k < out.len() implies is_input(#[trigger] out[k], input, max_context)
        || exists|i: int|
        0 <= i < recent.len() && is_spoken(#[trigger] recent[i]) && says(out[k], recent[i]) by {
        assert(out[k] == sent[k - 1]);
        let rest = all.skip(n);
        if rest.len() > 0 && k - 1 < rest.len() {
            assert(sent[k - 1] == all[n + k - 1]);
            let i = from[n + k - 1];
            assert(is_spoken(recent[i]) && says(out[k], recent[i]));
        } else {
            assert(out[k] == now);
        }
    }
}

/// As long as everything fits into the budget, nothing that was said is left
/// out: all of the talk is sent in its order, and behind it what the user says
/// now, unless the talk ends with it.
pub proof fn law_nothing_is_left_out_that_fits(
    pinned: Seq<Seq<char>>,
    optional: Seq<Seq<char>>,
    recent: Seq<Message<Seq<char>>>,
    input: Seq<char>,
    max_context: int,
    replay: bool,
)
    requires
        messages_tokens(talk(recent, replay).push(input_message(input, max_context)))
            + pinned_tokens(pinned) + 256 <= max_context,
        talk(recent, replay).len() > 0,
    ensures
        ({
            let out = context(pinned, optional, recent, input, max_context, replay);
            let all = talk(recent, replay);
            let ends = recent.last().role == "user"@ && trimmed(recent.last().content) == trimmed(
                input,
            );
            &&& out.len() == 1 + all.len() + (if ends {
                0int
            } else {
                1
            })
            &&& forall|k: int| 0 <= k < all.len() ==> out[k + 1] == #[trigger] all[k]
        }),
{
    let all = talk(recent, replay);
    let now = input_message(input, max_context);
    let has_input = ends_with_input(recent, input);
    assert(recent.len() > 0);
    assert(all.push(now).drop_last() =~= all);
    lemma_tokens_positive(all);
    lemma_tokens_positive(all.push(now));
    assert(pinned_tokens(pinned) >= 0);
    assert(fitting(all, now, has_input, 0, max_context - 256) == all);
    assert(fitting(all, now, has_input, pinned_tokens(pinned), max_context - 96) == all);
    let out = context(pinned, optional, recent, input, max_context, replay);
    assert forall|k: int| 0 <= k < all.len() implies out[k + 1] == #[trigger] all[k] by {}
}

proof fn lemma_tokens_positive(ms: Seq<ApiMessage<Seq<char>>>)
    ensures
        messages_tokens(ms) >= 0,
    decreases ms.len(),
{
    if ms.len() > 0 {
        lemma_tokens_positive(ms.drop_last());
    }
}

/// Four characters are taken for a token, and each text for one more.
pub proof fn law_tokens(s: Seq<char>)
    ensures
        s.len() <= 4 * (tokens(s) - 1) < s.len() + 4,
{
}

/// A message is taken to have the tokens of its role and of its content, and
/// four more; messages have those of all of them.
pub proof fn law_tokens_add_up(ms: Seq<ApiMessage<Seq<char>>>, m: ApiMessage<Seq<char>>)
    ensures
        messages_tokens(ms.push(m)) == messages_tokens(ms) + tokens(m.role) + tokens(m.content) + 4,
        messages_tokens(Seq::empty()) == 0,
{
    assert(ms.push(m).drop_last() =~= ms);
}

// ---------------------------------------------------------------------------
// Sections
// ---------------------------------------------------------------------------

/// Every part is found in what they are joined to.
pub proof fn law_joined_has_parts(parts: Seq<Seq<char>>, sep: Seq<char>, i: int)
    requires
        0 <= i < parts.len(),
    ensures
        has_part(joined(parts, sep), parts[i]),
    decreases parts.len(),
{
    let s = joined(parts, sep);
    if parts.len() == 1 {
        assert(s.subrange(0, 0 + parts[0].len() as int) =~= parts[0]);
        assert(occurs_at(s, parts[0], 0));
    } else {
        let front = parts.drop_last();
        let t = joined(front, sep);
        if i < front.len() {
            law_joined_has_parts(front, sep, i);
            assert(front[i] == parts[i]);
            let at = choose|at: int| occurs_at(t, parts[i], at);
            assert(s.subrange(at, at + parts[i].len()) =~= t.subrange(at, at + parts[i].len()));
            assert(occurs_at(s, parts[i], at));
        } else {
            let at = (t.len() + sep.len()) as int;
            assert(s.subrange(at, at + parts[i].len()) =~= parts[i]);
            assert(occurs_at(s, parts[i], at));
        }
    }
}

/// A part of a part is a part.
proof fn lemma_part_of_part(s: Seq<char>, t: Seq<char>, p: Seq<char>)
    requires
        has_part(s, t),
        has_part(t, p),
    ensures
        has_part(s, p),
{
    let a = choose|a: int| occurs_at(s, t, a);
    let b = choose|b: int| occurs_at(t, p, b);
    assert(s.subrange(a, a + t.len()).subrange(b, b + p.len()) =~= s.subrange(
        a + b,
        a + b + p.len(),
    ));
    assert(occurs_at(s, p, a + b));
}

/// All sections that have to be told are in the message of the system, and so
/// is each other one that is not blank, as long as everything fits.
pub proof fn law_sections_are_told(
    pinned: Seq<Seq<char>>,
    optional: Seq<Seq<char>>,
    recent: Seq<Message<Seq<char>>>,
    input: Seq<char>,
    max_context: int,
    replay: bool,
    i: int,
)
    requires
        ({
            let sent = sent_messages(pinned, recent, input, max_context, replay);
            &&& all_tokens(optional) + pinned_tokens(pinned) + messages_tokens(sent) <= max_context
            &&& joined(
                chosen(
                    pinned,
                    optional,
                    pinned_tokens(pinned) + messages_tokens(sent),
                    max_context,
                ).sections,
                "\n\n"@,
            ).len() <= 32000
        }),
    ensures
        ({
            let told = context(pinned, optional, recent, input, max_context, replay)[0].content;
            &&& 0 <= i < pinned.len() ==> has_part(told, pinned[i])
            &&& 0 <= i < optional.len() && trimmed(optional[i]).len() > 0 ==> has_part(
                told,
                optional[i],
            )
        }),
{
    let sent = sent_messages(pinned, recent, input, max_context, replay);
    let used = pinned_tokens(pinned) + messages_tokens(sent);
    let all = chosen(pinned, optional, used, max_context).sections;
    lemma_all_chosen(pinned, optional, used, max_context);
    if 0 <= i < pinned.len() {
        assert(all.contains(pinned[i]));
        law_joined_has_parts(all, "\n\n"@, all.index_of(pinned[i]));
    }
    if 0 <= i < optional.len() && trimmed(optional[i]).len() > 0 {
        assert(all.contains(optional[i]));
        law_joined_has_parts(all, "\n\n"@, all.index_of(optional[i]));
    }
}

/// The tokens of sections, with what is added for each.
pub open spec fn all_tokens(sections: Seq<Seq<char>>) -> int
    decreases sections.len(),
{
    if sections.len() == 0 {
        0
    } else {
        all_tokens(sections.drop_last()) + tokens(sections.last()) + 8
    }
}

proof fn lemma_all_chosen(
    pinned: Seq<Seq<char>>,
    optional: Seq<Seq<char>>,
    used: int,
    max_context: int,
)
    requires
        all_tokens(optional) + used <= max_context,
    ensures
        ({
            let c = chosen(pinned, optional, used, max_context);
            &&& c.used <= used + all_tokens(optional)
            &&& forall|i: int| 0 <= i < pinned.len() ==> c.sections.contains(#[trigger] pinned[i])
            &&& forall|i: int|
                0 <= i < optional.len() && trimmed(#[trigger] optional[i]).len() > 0
                    ==> c.sections.contains(optional[i])
        }),
    decreases optional.len(),
{
    if optional.len() > 0 {
        let front = optional.drop_last();
        let last = optional.last();
        lemma_all_chosen(pinned, front, used, max_context);
        let before = chosen(pinned, front, used, max_context).sections;
        let all = chosen(pinned, optional, used, max_context).sections;
        assert forall|x: Seq<char>| before.contains(x) implies #[trigger] all.contains(x) by {
            let k = before.index_of(x);
            assert(all[k] == x);
        }
        assert forall|i: int|
            0 <= i < optional.len() && trimmed(#[trigger] optional[i]).len() > 0 implies all.contains(
            optional[i],
        ) by {
            if i < front.len() {
                assert(front[i] == optional[i]);
            } else {
                assert(all[all.len() - 1] == last);
            }
        }
    }
}

/// A section begins with its heading and holds every line; without lines it is
/// blank.
pub proof fn law_sections_hold_their_lines(heading: Seq<char>, lines: Seq<Seq<char>>, i: int)
    ensures
        0 <= i < lines.len() ==> starts(section(heading, lines), heading) && has_part(
            section(heading, lines),
            lines[i],
        ),
        lines.len() == 0 ==> section(heading, lines).len() == 0,
{
    if 0 <= i < lines.len() {
        let s = section(heading, lines);
        let rest = joined(lines, "\n"@);
        assert(s.take(heading.len() as int) =~= heading);
        law_joined_has_parts(lines, "\n"@, i);
        let at = (heading.len() + "\n"@.len()) as int;
        assert(s.subrange(at, at + rest.len()) =~= rest);
        assert(occurs_at(s, rest, at));
        lemma_part_of_part(s, rest, lines[i]);
    }
}

/// A line that names something and tells the beginning of a text.
pub open spec fn tells(
    lines: Seq<Seq<char>>,
    label: Seq<char>,
    text: Seq<char>,
    max: int,
) -> bool {
    trimmed(text).len() > 0 ==> lines.contains(
        "- "@ + label + ": "@ + (if trimmed(text).len() <= max {
            trimmed(text)
        } else {
            trimmed(text).take(max)
        }),
    )
}

/// Everything that is known of the user and of how to answer is told under its
/// name; where nothing is known, there is no line.
#[verifier::rlimit(60)]
pub proof fn law_profiles_are_told(u: UserProfile<Seq<char>>, s: StyleProfile<Seq<char>>)
    ensures
        ({
            let lines = profile_lines(u, s);
            &&& tells(lines, "preferred_name"@, u.preferred_name, 48)
            &&& tells(lines, "long_term_goals"@, u.long_term_goals, 420)
            &&& tells(lines, "interests"@, u.interests, 300)
            &&& tells(lines, "important_experiences"@, u.important_experiences, 420)
            &&& tells(lines, "language_preference"@, u.language_preference, 24)
            &&& tells(lines, "notes"@, u.notes, 420)
            &&& tells(lines, "style_detail_level"@, s.detail_level, 24)
            &&& tells(lines, "style_tone"@, s.tone, 24)
            &&& tells(lines, "style_technical_level"@, s.technical_level, 24)
            &&& tells(lines, "style_language_style"@, s.language_style, 24)
            &&& tells(lines, "style_explicit_preferences"@, s.explicit_preferences, 360)
            &&& lines.len() <= 11
        }),
{
    let a0 = crate::context::profile_line_of("preferred_name"@, u.preferred_name, 48);
    let a1 = crate::context::profile_line_of("long_term_goals"@, u.long_term_goals, 420);
    let a2 = crate::context::profile_line_of("interests"@, u.interests, 300);
    let a3 = crate::context::profile_line_of(
        "important_experiences"@,
        u.important_experiences,
        420,
    );
    let a4 = crate::context::profile_line_of("language_preference"@, u.language_preference, 24);
    let a5 = crate::context::profile_line_of("notes"@, u.notes, 420);
    let a6 = crate::context::profile_line_of("style_detail_level"@, s.detail_level, 24);
    let a7 = crate::context::profile_line_of("style_tone"@, s.tone, 24);
    let a8 = crate::context::profile_line_of("style_technical_level"@, s.technical_level, 24);
    let a9 = crate::context::profile_line_of("style_language_style"@, s.language_style, 24);
    let a10 = crate::context::profile_line_of(
        "style_explicit_preferences"@,
        s.explicit_preferences,
        360,
    );
    let s1 = a0 + a1;
    let s2 = s1 + a2;
    let s3 = s2 + a3;
    let s4 = s3 + a4;
    let s5 = s4 + a5;
    let s6 = s5 + a6;
    let s7 = s6 + a7;
    let s8 = s7 + a8;
    let s9 = s8 + a9;
    let lines = s9 + a10;
    assert(lines == profile_lines(u, s));
    if a0.len() > 0 {
        assert(a0.contains(a0[0]));
    }
    lemma_kept(a0, a1);
    lemma_kept(s1, a2);
    lemma_kept(s2, a3);
    lemma_kept(s3, a4);
    lemma_kept(s4, a5);
    lemma_kept(s5, a6);
    lemma_kept(s6, a7);
    lemma_kept(s7, a8);
    lemma_kept(s8, a9);
    lemma_kept(s9, a10);
    if a0.len() > 0 {
        assert(lines.contains(a0[0]));
    }
    lemma_line(lines, "preferred_name"@, u.preferred_name, 48);
    if a1.len() > 0 {
        assert(lines.contains(a1[0]));
    }
    lemma_line(lines, "long_term_goals"@, u.long_term_goals, 420);
    if a2.len() > 0 {
        assert(lines.contains(a2[0]));
    }
    lemma_line(lines, "interests"@, u.interests, 300);
    if a3.len() > 0 {
        assert(lines.contains(a3[0]));
    }
    lemma_line(lines, "important_experiences"@, u.important_experiences, 420);
    if a4.len() > 0 {
        assert(lines.contains(a4[0]));
    }
    lemma_line(lines, "language_preference"@, u.language_preference, 24);
    if a5.len() > 0 {
        assert(lines.contains(a5[0]));
    }
    lemma_line(lines, "notes"@, u.notes, 420);
    if a6.len() > 0 {
        assert(lines.contains(a6[0]));
    }
    lemma_line(lines, "style_detail_level"@, s.detail_level, 24);
    if a7.len() > 0 {
        assert(lines.contains(a7[0]));
    }
    lemma_line(lines, "style_tone"@, s.tone, 24);
    if a8.len() > 0 {
        assert(lines.contains(a8[0]));
    }
    lemma_line(lines, "style_technical_level"@, s.technical_level, 24);
    if a9.len() > 0 {
        assert(lines.contains(a9[0]));
    }
    lemma_line(lines, "style_language_style"@, s.language_style, 24);
    if a10.len() > 0 {
        assert(lines.contains(a10[0]));
    }
    lemma_line(lines, "style_explicit_preferences"@, s.explicit_preferences, 360);
}

/// What is there stays there, and what is added is there.
proof fn lemma_kept(before: Seq<Seq<char>>, more: Seq<Seq<char>>)
    ensures
        forall|x: Seq<char>| before.contains(x) ==> #[trigger] (before + more).contains(x),
        more.len() > 0 ==> (before + more).contains(more[0]),
{
    let all = before + more;
    assert forall|x: Seq<char>| before.contains(x) implies #[trigger] all.contains(x) by {
        assert(all[before.index_of(x)] == x);
    }
    if more.len() > 0 {
        assert(all[before.len() as int] == more[0]);
    }
}

/// A line of a profile tells what it is about.
proof fn lemma_line(lines: Seq<Seq<char>>, label: Seq<char>, text: Seq<char>, max: int)
    requires
        ({
            let one = crate::context::profile_line_of(label, text, max);
            one.len() > 0 ==> lines.contains(one[0])
        }),
    ensures
        tells(lines, label, text, max),
{
}

/// Each memory has one line with its importance and the beginning of its text,
/// in the order in which the memories come.
pub proof fn law_memories_are_told(ms: Seq<Memory<Seq<char>>>, i: int)
    requires
        0 <= i < ms.len(),
    ensures
        memory_lines(ms).len() == ms.len(),
        ms[i].content.len() <= 220 ==> memory_lines(ms)[i] == "- ("@ + decimal(
            ms[i].importance as int,
        ) + ") "@ + ms[i].content,
        ms[i].content.len() > 220 ==> memory_lines(ms)[i] == "- ("@ + decimal(
            ms[i].importance as int,
        ) + ") "@ + ms[i].content.take(220),
{
}

/// Summaries, which come the newest first, are told from the oldest on, each
/// with its number and the beginning of its text.
pub proof fn law_summaries_are_told(ss: Seq<SummaryRecord<Seq<char>>>, i: int)
    requires
        0 <= i < ss.len(),
    ensures
        summary_lines(ss).len() == ss.len(),
        ({
            let s = ss[ss.len() - 1 - i];
            let text = trimmed(s.summary);
            summary_lines(ss)[i] == "- seg#"@ + decimal(s.segment_index as int) + " "@ + (
            if text.len() <= 600 {
                text
            } else {
                text.take(600)
            })
        }),
{
}

/// What is told of an attachment begins with its name.
pub open spec fn names(line: Seq<char>, f: ConversationFile<Seq<char>>) -> bool {
    starts(line, "- "@ + f.file_name + " ("@)
}

/// Up to eight attachments are told by their names and summaries, in their
/// order: each one of which there is anything to say.
pub proof fn law_attachments_are_told(files: Seq<ConversationFile<Seq<char>>>, i: int)
    requires
        0 <= i < files.len() <= 8,
        trimmed(files[i].summary).len() > 0,
        trimmed(files[i].summary).len() <= 320,
    ensures
        gist_lines(files).len() <= files.len(),
        exists|k: int|
            0 <= k < gist_lines(files).len() && names(#[trigger] gist_lines(files)[k], files[i])
                && crate::text::ends(gist_lines(files)[k], ": "@ + trimmed(files[i].summary)),
    decreases files.len(),
{
    let front = files.drop_last();
    let lines = gist_lines(files);
    lemma_gists(front);
    if i < front.len() {
        assert(front[i] == files[i]);
        law_attachments_are_told(front, i);
        let before = gist_lines(front);
        let k = choose|k: int|
            0 <= k < before.len() && names(#[trigger] before[k], files[i]) && crate::text::ends(
                before[k],
                ": "@ + trimmed(files[i].summary),
            );
        assert(lines[k] == before[k]);
    } else {
        let f = files[i];
        let text = trimmed(f.summary);
        crate::text::law_trimmed_stays(f.summary);
        assert(crate::context::file_gist(f) == text);
        let line = crate::context::file_head(f) + ": "@ + text;
        let k = lines.len() - 1;
        assert(lines[k] == line);
        let head = "- "@ + f.file_name + " ("@;
        assert(line.take(head.len() as int) =~= head);
        let tail = ": "@ + text;
        assert(line.skip(line.len() - tail.len()) =~= tail);
        assert(names(lines[k], f));
    }
}

proof fn lemma_gists(files: Seq<ConversationFile<Seq<char>>>)
    ensures
        gist_lines(files).len() <= files.len(),
    decreases files.len(),
{
    if files.len() > 0 {
        lemma_gists(files.drop_last());
    }
}

/// The texts of attachments are told only where they are asked for; else their
/// summaries are.
pub proof fn law_texts_are_told_on_demand(
    files: Seq<ConversationFile<Seq<char>>>,
    raws: Seq<Seq<char>>,
    f: ConversationFile<Seq<char>>,
    raw: Seq<char>,
)
    requires
        files.len() == 1,
        raws.len() == 1,
        files[0] == f,
        raws[0] == raw,
        0 < trimmed(raw).len() <= 1200,
    ensures
        file_lines(files, raws, false) == gist_lines(files),
        file_lines(files, raws, true).len() == 1,
        names(file_lines(files, raws, true)[0], f),
        crate::text::ends(file_lines(files, raws, true)[0], "\n  excerpt:\n"@ + trimmed(raw)),
        file_heading(true) != file_heading(false),
{
    reveal_with_fuel(raw_lines, 2);
    assert(files.drop_last() =~= Seq::empty());
    let line = file_lines(files, raws, true)[0];
    let head = "- "@ + f.file_name + " ("@;
    let tail = "\n  excerpt:\n"@ + trimmed(raw);
    assert(line.take(head.len() as int) =~= head);
    assert(line.skip(line.len() - tail.len()) =~= tail);
    reveal_strlit("[Current Conversation TXT Attachments - Raw Excerpts On Demand]");
    reveal_strlit("[Current Conversation TXT Attachments - Summaries]");
    assert(file_heading(true).len() != file_heading(false).len());
}

/// The rules of a conversation come first, under their heading, and the persona
/// behind them; both are told as they are, but for the white space around them
/// and what is over the length that is left for rules.
pub proof fn law_rules_and_persona_are_told(
    rules: Seq<char>,
    persona: Seq<char>,
    max_context: int,
)
    requires
        trimmed(rules).len() > 0,
        trimmed(persona).len() > 0,
        trimmed(rules).len() <= 1024,
    ensures
        ({
            let all = pinned_sections(rules, persona, max_context);
            &&& all.len() == 2
            &&& all[0] == "[Conversation System Prompt]\n"@ + trimmed(rules)
            &&& all[1] == trimmed(persona)
        }),
{
}

// ---------------------------------------------------------------------------
// A conversation
// ---------------------------------------------------------------------------

/// In a conversation a model is told one message of the system, and behind it
/// only messages of that conversation that were not deleted, in the roles in
/// which they were said, and what the user says now.
pub proof fn law_conversations_are_told(
    t: Tables,
    id: Seq<char>,
    user_text: Seq<char>,
    s: ChatSettings<Seq<char>>,
    raws: Seq<Seq<char>>,
    wants_raw: bool,
    now: Seq<char>,
)
    ensures
        ({
            let out = t.told(id, user_text, s, raws, wants_raw, now);
            let limit = context_limit(t.overrides(id), s);
            &&& out.len() >= 2
            &&& out[0].role == "system"@
            &&& forall|k: int|
                1 <= k < out.len() ==> {
                    ||| is_input(#[trigger] out[k], user_text, limit)
                    ||| exists|m: Message<Seq<char>>| #[trigger]
                        t.messages.contains(m) && m.conversation_id == id && m.deleted_at is None
                            && is_spoken(m) && says(out[k], m)
                }
        }),
{
    let o = t.overrides(id);
    let limit = context_limit(o, s);
    let hits = t.called_to_mind(id, user_text, memory_limit(o, s));
    let pinned = pinned_sections(
        o.system_prompt,
        t.setting_or("core_persona_prompt"@, ""@),
        limit,
    );
    let optional = t.optional_sections(
        id,
        user_text,
        t.shown_used(hits, now),
        raws,
        wants_raw,
        now,
    );
    let n = recent_limit(o, s);
    let recent = page_from_end(t.timeline(id), n, 0);
    law_told_is_what_was_said(pinned, optional, recent, user_text, limit, false);
    crate::db::messages::law_timeline(t, id);
    let out = t.told(id, user_text, s, raws, wants_raw, now);
    assert forall|k: int| 1 <= k < out.len() implies is_input(#[trigger] out[k], user_text, limit)
        || exists|m: Message<Seq<char>>| #[trigger]
        t.messages.contains(m) && m.conversation_id == id && m.deleted_at is None && is_spoken(m)
            && says(out[k], m) by {
        if !is_input(out[k], user_text, limit) {
            let i = choose|i: int|
                0 <= i < recent.len() && is_spoken(#[trigger] recent[i]) && says(
                    out[k],
                    recent[i],
                );
            let all = t.timeline(id);
            crate::db::store_laws::law_pages_count_from_the_newest(all, n, 0);
            let m = recent[i];
            assert(m == all[all.len() - recent.len() + i]);
            assert(all.contains(m));
            assert(t.messages.contains(m));
        }
    }
}

/// The newest messages of a conversation are the ones that are looked at, as many
/// as are set.
pub proof fn law_newest_messages_are_looked_at(t: Tables, id: Seq<char>, n: int, k: int)
    requires
        0 <= n,
        0 <= k < page_from_end(t.timeline(id), n, 0).len(),
    ensures
        ({
            let all = t.timeline(id);
            let page = page_from_end(all, n, 0);
            &&& page.len() <= n
            &&& page[k] == all[all.len() - page.len() + k]
            &&& all.len() <= n ==> page == all
        }),
{
    let all = t.timeline(id);
    crate::db::store_laws::law_pages_count_from_the_newest(all, n, 0);
    if all.len() <= n {
        assert(page_from_end(all, n, 0) =~= all);
    }
}

/// Beside the rules, a conversation is told who the user is, what is attached,
/// what came to mind and what older messages said, each under its heading: every
/// memory that came to mind is there.
pub proof fn law_sections_of_a_conversation(
    t: Tables,
    id: Seq<char>,
    user_text: Seq<char>,
    hits: Seq<MemoryRow<Seq<char>>>,
    raws: Seq<Seq<char>>,
    now: Seq<char>,
    i: int,
)
    requires
        0 <= i < hits.len(),
        hits[i].content.len() <= 220,
    ensures
        ({
            let all = t.optional_sections(
                id,
                user_text,
                t.shown_used(hits, now),
                raws,
                false,
                now,
            );
            &&& all.len() == 4
            &&& starts(all[2], "[Relevant Long-Term Memories]"@)
            &&& has_part(all[2], hits[i].content)
            &&& t.user(now).preferred_name.len() > 0 && trimmed(t.user(now).preferred_name).len()
                > 0 ==> starts(all[0], "[User Profile]"@)
            &&& forall|k: int|
                0 <= k < t.summary_records(id, 8).len() && trimmed(
                    (#[trigger] t.summary_records(id, 8)[k]).summary,
                ).len() <= 600 ==> starts(all[3], "[Older Summaries]"@) && has_part(
                    all[3],
                    trimmed(t.summary_records(id, 8)[k].summary),
                )
        }),
{
    let ms = t.shown_used(hits, now);
    let lines = memory_lines(ms);
    law_memories_are_told(ms, i);
    law_sections_hold_their_lines("[Relevant Long-Term Memories]"@, lines, i);
    let head = "- ("@ + decimal(ms[i].importance as int) + ") "@;
    let content = hits[i].content;
    assert(ms[i].content == content);
    lemma_tail_part(head, content);
    assert(lines[i] =~= head + content);
    let all = t.optional_sections(id, user_text, ms, raws, false, now);
    lemma_part_of_part(all[2], lines[i], content);
    let u = t.user(now);
    let st = t.style(now);
    law_profiles_are_told(u, st);
    let known = profile_lines(u, st);
    if trimmed(u.preferred_name).len() > 0 {
        assert(known.len() > 0);
        law_sections_hold_their_lines("[User Profile]"@, known, 0);
    }
    let ss = t.summary_records(id, 8);
    assert forall|k: int| 0 <= k < ss.len() && trimmed((#[trigger] ss[k]).summary).len()
        <= 600 implies starts(all[3], "[Older Summaries]"@) && has_part(
        all[3],
        trimmed(ss[k].summary),
    ) by {
        let j = ss.len() - 1 - k;
        law_summaries_are_told(ss, j);
        let old = summary_lines(ss);
        law_sections_hold_their_lines("[Older Summaries]"@, old, j);
        let first = "- seg#"@ + decimal(ss[k].segment_index as int) + " "@;
        lemma_tail_part(first, trimmed(ss[k].summary));
        assert(old[j] =~= first + trimmed(ss[k].summary));
        lemma_part_of_part(all[3], old[j], trimmed(ss[k].summary));
    }
}

proof fn lemma_tail_part(head: Seq<char>, tail: Seq<char>)
    ensures
        has_part(head + tail, tail),
{
    let n = head.len() as int;
    assert((head + tail).subrange(n, n + tail.len()) =~= tail);
    assert(occurs_at(head + tail, tail, n));
}

// ---------------------------------------------------------------------------
// The budget
// ---------------------------------------------------------------------------

/// No more messages are left out than have to be: where some are, one more would
/// not have fitted, alone or beside what has to be told in any case.
pub proof fn law_no_more_is_left_out_than_needed(
    pinned: Seq<Seq<char>>,
    recent: Seq<Message<Seq<char>>>,
    input: Seq<char>,
    max_context: int,
    replay: bool,
) -> (kept: int)
    ensures
        ({
            let all = talk(recent, replay);
            let now = input_message(input, max_context);
            let has_input = ends_with_input(recent, input);
            let sent = sent_messages(pinned, recent, input, max_context, replay);
            &&& 0 <= kept <= all.len()
            &&& sent == at_least_input(
                with_input(all.skip(all.len() - kept), now, has_input),
                now,
            )
            &&& kept < all.len() ==> {
                let one_more = with_input(all.skip(all.len() - kept - 1), now, has_input);
                ||| messages_tokens(one_more) > max_context - 256
                ||| messages_tokens(one_more) + tokens(joined(pinned, "\n\n"@)) + 8 > max_context - 96
            }
        }),
{
    let all = talk(recent, replay);
    let now = input_message(input, max_context);
    let has_input = ends_with_input(recent, input);
    let first = fitting(all, now, has_input, 0, max_context - 256);
    let second = fitting(first, now, has_input, pinned_tokens(pinned), max_context - 96);
    lemma_minimal(all, now, has_input, 0, max_context - 256);
    lemma_minimal(first, now, has_input, pinned_tokens(pinned), max_context - 96);
    let kept = second.len() as int;
    assert(second =~= all.skip(all.len() - kept));
    if kept < first.len() {
        assert(first.skip(first.len() - kept - 1) =~= all.skip(all.len() - kept - 1));
    } else if kept < all.len() {
        assert(first =~= second);
    }
    kept
}

proof fn lemma_minimal(
    recent: Seq<ApiMessage<Seq<char>>>,
    input: ApiMessage<Seq<char>>,
    has_input: bool,
    extra: int,
    limit: int,
)
    ensures
        ({
            let r = fitting(recent, input, has_input, extra, limit);
            &&& r.len() <= recent.len()
            &&& r == recent.skip(recent.len() - r.len())
            &&& r.len() < recent.len() ==> messages_tokens(
                with_input(recent.skip(recent.len() - r.len() - 1), input, has_input),
            ) + extra > limit
        }),
    decreases recent.len(),
{
    let keep = if has_input {
        1int
    } else {
        0
    };
    if messages_tokens(with_input(recent, input, has_input)) + extra > limit && recent.len()
        > keep {
        let rest = recent.skip(1);
        lemma_minimal(rest, input, has_input, extra, limit);
        let r = fitting(recent, input, has_input, extra, limit);
        assert(rest.skip(rest.len() - r.len()) =~= recent.skip(recent.len() - r.len()));
        if r.len() < rest.len() {
            assert(rest.skip(rest.len() - r.len() - 1) =~= recent.skip(
                recent.len() - r.len() - 1,
            ));
        } else {
            assert(recent.skip(0) =~= recent);
        }
    } else {
        assert(recent.skip(0) =~= recent);
    }
}

/// The message of the system holds all sections that are told, a line between
/// each two, up to 32000 characters.
pub proof fn law_the_system_is_told_the_sections(
    pinned: Seq<Seq<char>>,
    optional: Seq<Seq<char>>,
    recent: Seq<Message<Seq<char>>>,
    input: Seq<char>,
    max_context: int,
    replay: bool,
)
    ensures
        ({
            let sent = sent_messages(pinned, recent, input, max_context, replay);
            let all = chosen(
                pinned,
                optional,
                tokens(joined(pinned, "\n\n"@)) + 8 + messages_tokens(sent),
                max_context,
            ).sections;
            let m = context(pinned, optional, recent, input, max_context, replay)[0];
            &&& m.content.len() <= 32000
            &&& starts(joined(all, "\n\n"@), m.content)
            &&& joined(all, "\n\n"@).len() <= 32000 ==> m.content == joined(all, "\n\n"@)
            &&& m.reasoning_content is None
        }),
{
    let sent = sent_messages(pinned, recent, input, max_context, replay);
    let all = chosen(
        pinned,
        optional,
        pinned_tokens(pinned) + messages_tokens(sent),
        max_context,
    ).sections;
    crate::text_laws::law_clipping(joined(all, "\n\n"@), 32000);
}

/// What the user says now is sent whole up to its bound: twice as many
/// characters as there are tokens, between 1200 and 24000.
pub proof fn law_long_inputs_are_cut(input: Seq<char>, max_context: int)
    ensures
        ({
            let n = input_message(input, max_context).content.len();
            let most = if max_context * 2 < 1200 {
                1200
            } else if max_context * 2 > 24000 {
                24000
            } else {
                max_context * 2
            };
            n == if input.len() <= most {
                input.len() as int
            } else {
                most
            }
        }),
{
}

/// Long rules are cut to four characters for each token of a third of the
/// budget, where that third counts as 256 to 8000 tokens.
pub proof fn law_long_rules_are_cut(rules: Seq<char>, persona: Seq<char>, max_context: int)
    requires
        trimmed(rules).len() > 0,
    ensures
        ({
            let third = max_context / 3;
            let most = 4 * (if third < 256 {
                256
            } else if third > 8000 {
                8000
            } else {
                third
            });
            let first = pinned_sections(rules, persona, max_context)[0];
            first == "[Conversation System Prompt]\n"@ + (if trimmed(rules).len() <= most {
                trimmed(rules)
            } else {
                trimmed(rules).take(most)
            })
        }),
{
}

/// Of the texts of attachments at most 4200 characters are told, and at most 1200
/// of one; the first is told as far as that goes.
pub proof fn law_excerpts_are_bounded(
    files: Seq<ConversationFile<Seq<char>>>,
    raws: Seq<Seq<char>>,
    raw: Seq<char>,
)
    requires
        files.len() > 0,
        raws.len() > 0,
        raws[0] == raw,
        trimmed(raw).len() > 1200,
    ensures
        raw_lines(files.take(1), raws).lines.len() == 1,
        crate::text::ends(
            raw_lines(files.take(1), raws).lines[0],
            "\n  excerpt:\n"@ + trimmed(raw).take(1200),
        ),
        raw_lines(files.take(1), raws).left == 3000,
        raw_lines(files, raws).left >= 0,
        raw_lines(files, raws).left <= 200 ==> forall|f: ConversationFile<Seq<char>>|
            #[trigger] raw_lines(files.push(f), raws) == raw_lines(files, raws),
{
    reveal_with_fuel(raw_lines, 2);
    let one = files.take(1);
    assert(one.drop_last() =~= Seq::empty());
    let line = raw_lines(one, raws).lines[0];
    let tail = "\n  excerpt:\n"@ + trimmed(raw).take(1200);
    assert(line.skip(line.len() - tail.len()) =~= tail);
    lemma_left(files, raws);
    assert forall|f: ConversationFile<Seq<char>>|
        raw_lines(files, raws).left <= 200 implies #[trigger] raw_lines(files.push(f), raws)
        == raw_lines(files, raws) by {
        assert(files.push(f).drop_last() =~= files);
    }
}

proof fn lemma_left(files: Seq<ConversationFile<Seq<char>>>, raws: Seq<Seq<char>>)
    ensures
        0 <= raw_lines(files, raws).left <= 4200,
    decreases files.len(),
{
    if files.len() > 0 {
        lemma_left(files.drop_last(), raws);
    }
}

/// Where reasoning is asked for, what the assistant thought comes along with
/// what it said, up to 7000 characters.
pub proof fn law_reasoning_comes_along(ms: Seq<Message<Seq<char>>>, m: Message<Seq<char>>)
    requires
        is_spoken(m),
        m.role == "assistant"@,
        0 < trimmed(m.reasoning_content).len(),
        m.reasoning_content.len() <= 7000,
    ensures
        talk(ms.push(m), true).last().reasoning_content == Some(m.reasoning_content),
        talk(ms.push(m), false).last().reasoning_content is None,
{
    assert(ms.push(m).drop_last() =~= ms);
}

/// What has to be told in any case is told, whatever else fits.
pub proof fn law_pinned_sections_are_told(
    pinned: Seq<Seq<char>>,
    optional: Seq<Seq<char>>,
    recent: Seq<Message<Seq<char>>>,
    input: Seq<char>,
    max_context: int,
    replay: bool,
)
    requires
        pinned.len() > 0,
        pinned[0].len() <= 32000,
    ensures
        starts(
            context(pinned, optional, recent, input, max_context, replay)[0].content,
            pinned[0],
        ),
{
    let sent = sent_messages(pinned, recent, input, max_context, replay);
    let used = pinned_tokens(pinned) + messages_tokens(sent);
    let all = chosen(pinned, optional, used, max_context).sections;
    crate::budget::lemma_chosen(pinned, optional, used, max_context);
    assert(all.take(pinned.len() as int) == pinned);
    assert(all[0] == pinned[0]) by {
        assert(all.take(pinned.len() as int)[0] == all[0]);
    }
    lemma_joined_start(all, "\n\n"@);
    let text = joined(all, "\n\n"@);
    let told = context(pinned, optional, recent, input, max_context, replay)[0].content;
    assert(told.take(pinned[0].len() as int) =~= text.take(pinned[0].len() as int));
}

proof fn lemma_joined_start(parts: Seq<Seq<char>>, sep: Seq<char>)
    requires
        parts.len() > 0,
    ensures
        joined(parts, sep).len() >= parts[0].len(),
        joined(parts, sep).take(parts[0].len() as int) == parts[0],
    decreases parts.len(),
{
    if parts.len() == 1 {
        assert(parts[0].take(parts[0].len() as int) =~= parts[0]);
    } else {
        let front = parts.drop_last();
        lemma_joined_start(front, sep);
        assert(front[0] == parts[0]);
        assert(joined(parts, sep).take(parts[0].len() as int) =~= joined(front, sep).take(
            parts[0].len() as int,
        ));
    }
}

/// The rules of a conversation stand at the beginning of what its model is told;
/// without rules the persona does.
pub proof fn law_rules_reach_the_model(
    t: Tables,
    id: Seq<char>,
    user_text: Seq<char>,
    s: ChatSettings<Seq<char>>,
    raws: Seq<Seq<char>>,
    wants_raw: bool,
    now: Seq<char>,
)
    ensures
        ({
            let out = t.told(id, user_text, s, raws, wants_raw, now);
            let rules = trimmed(t.overrides(id).system_prompt);
            &&& 0 < rules.len() <= 1024 ==> starts(
                out[0].content,
                "[Conversation System Prompt]\n"@ + rules,
            )
            &&& rules.len() == 0 ==> (t.setting("core_persona_prompt"@) matches Some(p) ==> (0
                < trimmed(p).len() <= 32000 ==> starts(out[0].content, trimmed(p))))
        }),
{
    reveal_strlit("[Conversation System Prompt]\n");
    let o = t.overrides(id);
    let limit = context_limit(o, s);
    let hits = t.called_to_mind(id, user_text, memory_limit(o, s));
    let pinned = pinned_sections(
        o.system_prompt,
        t.setting_or("core_persona_prompt"@, ""@),
        limit,
    );
    let optional = t.optional_sections(
        id,
        user_text,
        t.shown_used(hits, now),
        raws,
        wants_raw,
        now,
    );
    let recent = page_from_end(t.timeline(id), recent_limit(o, s), 0);
    if pinned.len() > 0 && pinned[0].len() <= 32000 {
        law_pinned_sections_are_told(pinned, optional, recent, user_text, limit, false);
    }
}

/// As many memories come to mind as are set, and none where none are wanted;
/// those that do are what a search with what the user says finds, and become a
/// step more important.
pub proof fn law_memories_come_to_mind(
    t: Tables,
    id: Seq<char>,
    user_text: Seq<char>,
    s: ChatSettings<Seq<char>>,
    now: Seq<char>,
    limit: int,
)
    ensures
        limit <= 0 ==> t.called_to_mind(id, user_text, limit).len() == 0,
        limit > 0 ==> t.called_to_mind(id, user_text, limit) == t.recalled(
            user_text,
            Some(id),
            limit,
        ),
        trimmed(user_text).len() == 0 ==> t.recalled(user_text, Some(id), limit).len() == 0,
        t.after_telling(id, user_text, s, now) == t.after_use(
            t.called_to_mind(id, user_text, memory_limit(t.overrides(id), s)),
            now,
        ),
{
}

/// What is told of an attachment: its name, its size and its summary; without a
/// summary that of its text. No more than eight are told.
pub proof fn law_what_is_told_of_an_attachment(
    files: Seq<ConversationFile<Seq<char>>>,
    f: ConversationFile<Seq<char>>,
)
    requires
        files.len() < 8,
        f.file_size >= 0,
        trimmed(f.summary).len() <= 320,
        trimmed(f.summary).len() > 0 || trimmed(crate::files::txt_summary(f.content_text)).len()
            > 0,
    ensures
        gist_lines(files.push(f)) == gist_lines(files).push(
            "- "@ + f.file_name + " ("@ + decimal(f.file_size as int) + " bytes)"@ + ": "@ + (
            if trimmed(f.summary).len() > 0 {
                trimmed(f.summary)
            } else {
                crate::files::txt_summary(f.content_text)
            }),
        ),
{
    assert(files.push(f).drop_last() =~= files);
    lemma_gists(files);
    crate::text::law_trimmed_stays(f.summary);
}

/// At most eight attachments are told by their summaries.
pub proof fn law_eight_attachments_are_told(files: Seq<ConversationFile<Seq<char>>>)
    ensures
        gist_lines(files).len() <= 8,
    decreases files.len(),
{
    if files.len() > 0 {
        law_eight_attachments_are_told(files.drop_last());
    }
}

/// What is told of an attachment whose wording is wanted: its name, its size, its
/// summary and the beginning of its text, which is that of the file, or what was
/// stored of it.
pub proof fn law_what_is_told_of_a_text(f: ConversationFile<Seq<char>>, raw: Seq<char>)
    requires
        f.file_size >= 0,
        trimmed(f.summary).len() <= 280,
        0 < trimmed(raw).len() <= 1200,
        0 < trimmed(f.content_text).len() <= 1200,
    ensures
        ({
            let head = "- "@ + f.file_name + " ("@ + decimal(f.file_size as int) + " bytes)"@
                + "\n  summary: "@ + trimmed(f.summary) + "\n  excerpt:\n"@;
            &&& raw_lines(seq![f], seq![raw]).lines == seq![head + trimmed(raw)]
            &&& raw_lines(seq![f], Seq::empty()).lines == seq![head + trimmed(f.content_text)]
        }),
{
    reveal_with_fuel(raw_lines, 2);
    let one = seq![f];
    assert(one.drop_last() =~= Seq::empty());
    let head = "- "@ + f.file_name + " ("@ + decimal(f.file_size as int) + " bytes)"@
        + "\n  summary: "@ + trimmed(f.summary) + "\n  excerpt:\n"@;
    let a = raw_lines(one, seq![raw]).lines;
    let b = raw_lines(one, Seq::empty()).lines;
    assert(a.len() == 1 && b.len() == 1);
    assert(a[0] =~= head + trimmed(raw));
    assert(b[0] =~= head + trimmed(f.content_text));
    assert(a =~= seq![head + trimmed(raw)]);
    assert(b =~= seq![head + trimmed(f.content_text)]);
}

/// The attachments stand under a heading that says whether their texts or their
/// summaries are told.
pub proof fn law_headings_of_attachments()
    ensures
        file_heading(true) == "[Current Conversation TXT Attachments - Raw Excerpts On Demand]"@,
        file_heading(false) == "[Current Conversation TXT Attachments - Summaries]"@,
{
}

/// Beside what has to be told nothing is told but sections that say something,
/// as they are; a blank section takes no part of the budget.
pub proof fn law_blank_sections_are_not_told(
    pinned: Seq<Seq<char>>,
    optional: Seq<Seq<char>>,
    used: int,
    max_context: int,
    blank: Seq<char>,
)
    requires
        trimmed(blank).len() == 0,
    ensures
        chosen(pinned, optional.push(blank), used, max_context) == chosen(
            pinned,
            optional,
            used,
            max_context,
        ),
        forall|k: int|
            pinned.len() <= k < chosen(pinned, optional, used, max_context).sections.len()
                ==> trimmed(
                #[trigger] chosen(pinned, optional, used, max_context).sections[k],
            ).len() > 0 && optional.contains(
                chosen(pinned, optional, used, max_context).sections[k],
            ),
    decreases optional.len(),
{
    assert(optional.push(blank).drop_last() =~= optional);
    if optional.len() > 0 {
        let front = optional.drop_last();
        law_blank_sections_are_not_told(pinned, front, used, max_context, blank);
        let before = chosen(pinned, front, used, max_context).sections;
        let all = chosen(pinned, optional, used, max_context).sections;
        assert forall|k: int| pinned.len() <= k < all.len() implies trimmed(
            #[trigger] all[k],
        ).len() > 0 && optional.contains(all[k]) by {
            if k < before.len() {
                assert(all[k] == before[k]);
                assert(front.contains(before[k]));
                assert(optional[front.index_of(before[k])] == all[k]);
            } else {
                assert(all[k] == optional[optional.len() - 1]);
            }
        }
    }
}

} // verus!
