//! What a model is told: rules, profiles, attachments, memories, summaries and
//! the newest messages, within a budget of tokens.
use vstd::prelude::*;
use crate::files::{summarize_txt_content, txt_summary};
use crate::models::{ApiMessage, ConversationFile, Memory, StyleProfile, SummaryRecord, UserProfile};
use crate::numbers::{decimal, show_i64};
use crate::settings::{clamp, clamped};
use crate::sorting::views;
use crate::text::{
    blank, char_count, clip_chars, clipped, is_blank, join, joined, texts, trim, trimmed,
};

verus! {

// ---------------------------------------------------------------------------
// Tokens
// ---------------------------------------------------------------------------

/// The tokens that a text is taken to have.
pub open spec fn tokens(s: Seq<char>) -> int {
    (s.len() as int + 3) / 4 + 1
}

/// The tokens that a message is taken to have.
pub open spec fn message_tokens(m: ApiMessage<Seq<char>>) -> int {
    tokens(m.role) + tokens(m.content) + 4
}

/// The tokens that messages are taken to have.
pub open spec fn messages_tokens(ms: Seq<ApiMessage<Seq<char>>>) -> int
    decreases ms.len(),
{
    if ms.len() == 0 {
        0
    } else {
        messages_tokens(ms.drop_last()) + message_tokens(ms.last())
    }
}

/// The tokens that a text is taken to have.
pub fn estimate_tokens(input: &str) -> (r: i64)
    ensures
        r == tokens(input@),
        1 <= r <= 0x4000_0000_0000_0001,
{
    let n: usize = char_count(input);
    let quarter: usize = n / 4;
    let part: i64 = if n % 4 == 0 {
        0
    } else {
        1
    };
    quarter as i64 + part + 1
}

/// The tokens that messages are taken to have.
pub fn estimate_messages_tokens(messages: &Vec<ApiMessage>) -> (r: i64)
    requires
        messages_tokens(views(messages@)) <= i64::MAX,
    ensures
        r == messages_tokens(views(messages@)),
{
    let ghost all = views(messages@);
    let mut sum: i64 = 0;
    for i in 0..messages.len()
        invariant
            all == views(messages@),
            messages_tokens(all) <= i64::MAX,
            sum == messages_tokens(all.take(i as int)),
    {
        proof {
            assert(all.take(i + 1).drop_last() =~= all.take(i as int));
            assert(all[i as int] == messages@[i as int]@);
            lemma_tokens_grow(all, i as int);
            lemma_tokens_grow(all, i + 1);
            assert(message_tokens(all[i as int]) <= i64::MAX - sum);
        }
        let m = &messages[i];
        sum = sum + (estimate_tokens(&m.role) + estimate_tokens(&m.content) + 4);
    }
    assert(all.take(all.len() as int) =~= all);
    sum
}

/// A part of the messages has no more tokens than all of them.
proof fn lemma_tokens_grow(ms: Seq<ApiMessage<Seq<char>>>, n: int)
    requires
        0 <= n <= ms.len(),
    ensures
        0 <= messages_tokens(ms.take(n)) <= messages_tokens(ms),
    decreases ms.len(),
{
    if n == ms.len() {
        assert(ms.take(n) =~= ms);
        if n > 0 {
            lemma_tokens_grow(ms.drop_last(), n - 1);
            assert(ms.drop_last().take(n - 1) =~= ms.drop_last());
        }
    } else {
        lemma_tokens_grow(ms.drop_last(), n);
        assert(ms.drop_last().take(n) =~= ms.take(n));
    }
}

// ---------------------------------------------------------------------------
// Lines
// ---------------------------------------------------------------------------

/// A line of a profile, where there is something to say.
pub open spec fn profile_line_of(label: Seq<char>, value: Seq<char>, max: int) -> Seq<Seq<char>> {
    if is_blank(value) {
        Seq::empty()
    } else {
        seq!["- "@ + label + ": "@ + clipped(trimmed(value), max)]
    }
}

/// A line of a profile, where there is something to say.
pub fn profile_line(label: &str, value: &str, max_chars: usize) -> (r: Option<String>)
    ensures
        match r {
            Some(l) => profile_line_of(label@, value@, max_chars as int) == seq![l@],
            None => profile_line_of(label@, value@, max_chars as int) == Seq::<Seq<char>>::empty(),
        },
{
    let clean = trim(value);
    if clean.as_str().is_empty() {
        return None;
    }
    let mut l = "- ".to_owned();
    l.append(label);
    l.append(": ");
    l.append(&clip_chars(&clean, max_chars));
    Some(l)
}

/// The lines of both profiles.
pub open spec fn profile_lines(u: UserProfile<Seq<char>>, s: StyleProfile<Seq<char>>) -> Seq<
    Seq<char>,
> {
    profile_line_of("preferred_name"@, u.preferred_name, 48) + profile_line_of(
        "long_term_goals"@,
        u.long_term_goals,
        420,
    ) + profile_line_of("interests"@, u.interests, 300) + profile_line_of(
        "important_experiences"@,
        u.important_experiences,
        420,
    ) + profile_line_of("language_preference"@, u.language_preference, 24) + profile_line_of(
        "notes"@,
        u.notes,
        420,
    ) + profile_line_of("style_detail_level"@, s.detail_level, 24) + profile_line_of(
        "style_tone"@,
        s.tone,
        24,
    ) + profile_line_of("style_technical_level"@, s.technical_level, 24) + profile_line_of(
        "style_language_style"@,
        s.language_style,
        24,
    ) + profile_line_of("style_explicit_preferences"@, s.explicit_preferences, 360)
}

/// Adds a line of a profile, where there is something to say.
fn add_profile_line(lines: &mut Vec<String>, label: &str, value: &str, max_chars: usize)
    ensures
        texts(final(lines)@) == texts(old(lines)@) + profile_line_of(
            label@,
            value@,
            max_chars as int,
        ),
{
    let ghost before = texts(lines@);
    match profile_line(label, value, max_chars) {
        Some(l) => {
            lines.push(l);
            assert(texts(lines@) =~= before + seq![l@]);
        },
        None => {
            assert(before + Seq::<Seq<char>>::empty() =~= before);
        },
    }
}

/// The lines of both profiles.
pub fn describe_profiles(u: &UserProfile, s: &StyleProfile) -> (r: Vec<String>)
    ensures
        texts(r@) == profile_lines(u@, s@),
{
    let mut lines: Vec<String> = Vec::new();
    add_profile_line(&mut lines, "preferred_name", &u.preferred_name, 48);
    assert(texts(lines@) =~= profile_line_of("preferred_name"@, u@.preferred_name, 48));
    add_profile_line(&mut lines, "long_term_goals", &u.long_term_goals, 420);
    add_profile_line(&mut lines, "interests", &u.interests, 300);
    add_profile_line(&mut lines, "important_experiences", &u.important_experiences, 420);
    add_profile_line(&mut lines, "language_preference", &u.language_preference, 24);
    add_profile_line(&mut lines, "notes", &u.notes, 420);
    add_profile_line(&mut lines, "style_detail_level", &s.detail_level, 24);
    add_profile_line(&mut lines, "style_tone", &s.tone, 24);
    add_profile_line(&mut lines, "style_technical_level", &s.technical_level, 24);
    add_profile_line(&mut lines, "style_language_style", &s.language_style, 24);
    add_profile_line(&mut lines, "style_explicit_preferences", &s.explicit_preferences, 360);
    lines
}

/// The line of a memory.
pub open spec fn memory_line_of(m: Memory<Seq<char>>) -> Seq<char> {
    "- ("@ + decimal(m.importance as int) + ") "@ + clipped(m.content, 220)
}

/// The lines of memories.
pub open spec fn memory_lines(ms: Seq<Memory<Seq<char>>>) -> Seq<Seq<char>> {
    Seq::new(ms.len(), |i: int| memory_line_of(ms[i]))
}

/// The lines of memories.
pub fn describe_memories(ms: &Vec<Memory>) -> (r: Vec<String>)
    ensures
        texts(r@) == memory_lines(views(ms@)),
{
    let ghost all = memory_lines(views(ms@));
    let mut lines: Vec<String> = Vec::new();
    for i in 0..ms.len()
        invariant
            all == memory_lines(views(ms@)),
            texts(lines@) == all.take(i as int),
    {
        let m = &ms[i];
        let mut l = "- (".to_owned();
        l.append(&show_i64(m.importance));
        l.append(") ");
        l.append(&clip_chars(&m.content, 220));
        let ghost next = texts(lines@).push(l@);
        lines.push(l);
        assert(texts(lines@) =~= next);
        assert(all.take(i + 1) =~= next);
    }
    assert(all.take(all.len() as int) =~= all);
    lines
}

/// The line of a summary.
pub open spec fn summary_line_of(s: SummaryRecord<Seq<char>>) -> Seq<char> {
    "- seg#"@ + decimal(s.segment_index as int) + " "@ + clipped(trimmed(s.summary), 600)
}

/// The lines of summaries, which come the newest first, from the oldest to the
/// newest.
pub open spec fn summary_lines(ss: Seq<SummaryRecord<Seq<char>>>) -> Seq<Seq<char>> {
    Seq::new(ss.len(), |i: int| summary_line_of(ss[ss.len() - 1 - i]))
}

/// The lines of summaries from the oldest to the newest.
pub fn describe_summaries(ss: &Vec<SummaryRecord>) -> (r: Vec<String>)
    ensures
        texts(r@) == summary_lines(views(ss@)),
{
    let ghost all = summary_lines(views(ss@));
    let mut lines: Vec<String> = Vec::new();
    let n: usize = ss.len();
    for i in 0..n
        invariant
            n == ss@.len(),
            all == summary_lines(views(ss@)),
            texts(lines@) == all.take(i as int),
    {
        let s = &ss[n - 1 - i];
        let mut l = "- seg#".to_owned();
        l.append(&show_i64(s.segment_index));
        l.append(" ");
        l.append(&clip_chars(&trim(&s.summary), 600));
        let ghost next = texts(lines@).push(l@);
        lines.push(l);
        assert(texts(lines@) =~= next);
        assert(all.take(i + 1) =~= next);
    }
    assert(all.take(all.len() as int) =~= all);
    lines
}

// ---------------------------------------------------------------------------
// Attachments
// ---------------------------------------------------------------------------

/// The name and the size of an attachment.
pub open spec fn file_head(f: ConversationFile<Seq<char>>) -> Seq<char> {
    "- "@ + f.file_name + " ("@ + decimal(
        if f.file_size < 0 {
            0
        } else {
            f.file_size as int
        },
    ) + " bytes)"@
}

/// What is told of an attachment without its text.
pub open spec fn file_gist(f: ConversationFile<Seq<char>>) -> Seq<char> {
    if is_blank(f.summary) {
        txt_summary(f.content_text)
    } else {
        clipped(trimmed(f.summary), 320)
    }
}

/// The lines of attachments without their texts, at most eight.
pub open spec fn gist_lines(files: Seq<ConversationFile<Seq<char>>>) -> Seq<Seq<char>>
    decreases files.len(),
{
    if files.len() == 0 {
        Seq::empty()
    } else {
        let before = gist_lines(files.drop_last());
        let f = files.last();
        if before.len() >= 8 || is_blank(file_gist(f)) {
            before
        } else {
            before.push(file_head(f) + ": "@ + file_gist(f))
        }
    }
}

/// How many characters of attachments are told in all.
pub const RAW_CHARS: usize = 4200;

/// How many characters of one attachment are told.
pub const RAW_CHARS_PER_FILE: usize = 1200;

/// Where fewer are left, no further attachment is told.
pub const RAW_CHARS_LEFT: usize = 200;

/// The text of an attachment: what its file holds, where that could be read.
pub open spec fn raw_text(f: ConversationFile<Seq<char>>, raws: Seq<Seq<char>>, i: int) -> Seq<
    char,
> {
    trimmed(
        if 0 <= i < raws.len() {
            raws[i]
        } else {
            f.content_text
        },
    )
}

/// The line of an attachment with the beginning of its text.
pub open spec fn raw_line(f: ConversationFile<Seq<char>>, excerpt: Seq<char>) -> Seq<char> {
    file_head(f) + "\n  summary: "@ + clipped(trimmed(f.summary), 280) + "\n  excerpt:\n"@ + excerpt
}

/// What was told of attachments: the lines, and how many characters are left.
pub struct Told {
    pub lines: Seq<Seq<char>>,
    pub left: int,
}

/// The lines of attachments with the beginnings of their texts.
pub open spec fn raw_lines(
    files: Seq<ConversationFile<Seq<char>>>,
    raws: Seq<Seq<char>>,
) -> Told
    decreases files.len(),
{
    if files.len() == 0 {
        Told { lines: Seq::empty(), left: RAW_CHARS as int }
    } else {
        let before = raw_lines(files.drop_last(), raws);
        let f = files.last();
        let raw = raw_text(f, raws, files.len() - 1);
        if before.left <= RAW_CHARS_LEFT || raw.len() == 0 {
            before
        } else {
            let excerpt = clipped(
                raw,
                if before.left < RAW_CHARS_PER_FILE {
                    before.left
                } else {
                    RAW_CHARS_PER_FILE as int
                },
            );
            Told {
                lines: before.lines.push(raw_line(f, excerpt)),
                left: before.left - excerpt.len(),
            }
        }
    }
}

/// The lines of attachments.
pub open spec fn file_lines(
    files: Seq<ConversationFile<Seq<char>>>,
    raws: Seq<Seq<char>>,
    wants_raw: bool,
) -> Seq<Seq<char>> {
    if wants_raw {
        raw_lines(files, raws).lines
    } else {
        gist_lines(files)
    }
}

/// The name and the size of an attachment.
fn describe_head(f: &ConversationFile) -> (r: String)
    ensures
        r@ == file_head(f@),
{
    let mut l = "- ".to_owned();
    l.append(&f.file_name);
    l.append(" (");
    l.append(
        &show_i64(
            if f.file_size < 0 {
                0
            } else {
                f.file_size
            },
        ),
    );
    l.append(" bytes)");
    l
}

/// The lines of attachments without their texts.
fn describe_gists(files: &Vec<ConversationFile>) -> (r: Vec<String>)
    ensures
        texts(r@) == gist_lines(views(files@)),
{
    let ghost all = views(files@);
    let mut lines: Vec<String> = Vec::new();
    assert(texts(lines@) =~= Seq::empty());
    for i in 0..files.len()
        invariant
            all == views(files@),
            texts(lines@) == gist_lines(all.take(i as int)),
    {
        assert(all.take(i + 1).drop_last() =~= all.take(i as int));
        let f = &files[i];
        assert(all[i as int] == f@);
        let gist = if blank(&f.summary) {
            summarize_txt_content(&f.content_text)
        } else {
            clip_chars(&trim(&f.summary), 320)
        };
        if lines.len() < 8 && !blank(&gist) {
            let mut l = describe_head(f);
            l.append(": ");
            l.append(&gist);
            let ghost next = texts(lines@).push(l@);
            lines.push(l);
            assert(texts(lines@) =~= next);
        }
    }
    assert(all.take(all.len() as int) =~= all);
    lines
}

/// The lines of attachments with the beginnings of their texts.
fn describe_raws(files: &Vec<ConversationFile>, raws: &Vec<String>) -> (r: Vec<String>)
    ensures
        texts(r@) == raw_lines(views(files@), texts(raws@)).lines,
{
    let ghost all = views(files@);
    let mut lines: Vec<String> = Vec::new();
    assert(texts(lines@) =~= Seq::empty());
    let mut left: usize = RAW_CHARS;
    for i in 0..files.len()
        invariant
            all == views(files@),
            texts(lines@) == raw_lines(all.take(i as int), texts(raws@)).lines,
            left == raw_lines(all.take(i as int), texts(raws@)).left,
    {
        assert(all.take(i + 1).drop_last() =~= all.take(i as int));
        let f = &files[i];
        assert(all[i as int] == f@);
        let raw = if i < raws.len() {
            trim(&raws[i])
        } else {
            trim(&f.content_text)
        };
        if left > RAW_CHARS_LEFT && !raw.as_str().is_empty() {
            let most: usize = if left < RAW_CHARS_PER_FILE {
                left
            } else {
                RAW_CHARS_PER_FILE
            };
            let excerpt = clip_chars(&raw, most);
            let mut l = describe_head(f);
            l.append("\n  summary: ");
            l.append(&clip_chars(&trim(&f.summary), 280));
            l.append("\n  excerpt:\n");
            l.append(&excerpt);
            left = left - char_count(&excerpt);
            let ghost next = texts(lines@).push(l@);
            lines.push(l);
            assert(texts(lines@) =~= next);
        }
    }
    assert(all.take(all.len() as int) =~= all);
    lines
}

/// The lines of attachments; `raws` holds the texts of their files.
pub fn describe_files(files: &Vec<ConversationFile>, raws: &Vec<String>, wants_raw: bool) -> (r: Vec<
    String,
>)
    ensures
        texts(r@) == file_lines(views(files@), texts(raws@), wants_raw),
{
    if wants_raw {
        describe_raws(files, raws)
    } else {
        describe_gists(files)
    }
}

// ---------------------------------------------------------------------------
// Sections
// ---------------------------------------------------------------------------

/// A section with a heading; nothing without lines.
pub open spec fn section(heading: Seq<char>, lines: Seq<Seq<char>>) -> Seq<char> {
    if lines.len() == 0 {
        Seq::empty()
    } else {
        heading + "\n"@ + joined(lines, "\n"@)
    }
}

/// The heading of the attachments.
pub open spec fn file_heading(wants_raw: bool) -> Seq<char> {
    if wants_raw {
        "[Current Conversation TXT Attachments - Raw Excerpts On Demand]"@
    } else {
        "[Current Conversation TXT Attachments - Summaries]"@
    }
}

/// How many characters of the rules of a conversation are told.
pub open spec fn prompt_chars(max_context: int) -> int {
    clamped(max_context / 3, 256, 8000) * 4
}

/// What is told in any case: the rules of the conversation and the persona.
pub open spec fn pinned_sections(
    system_prompt: Seq<char>,
    persona: Seq<char>,
    max_context: int,
) -> Seq<Seq<char>> {
    (if is_blank(system_prompt) {
        Seq::empty()
    } else {
        seq![
            "[Conversation System Prompt]\n"@ + clipped(
                trimmed(system_prompt),
                prompt_chars(max_context),
            ),
        ]
    }) + (if is_blank(persona) {
        Seq::empty()
    } else {
        seq![trimmed(persona)]
    })
}

/// A section with a heading; nothing without lines.
pub fn make_section(heading: &str, lines: &Vec<String>) -> (r: String)
    ensures
        r@ == section(heading@, texts(lines@)),
{
    if lines.len() == 0 {
        return String::new();
    }
    let mut s = heading.to_owned();
    s.append("\n");
    s.append(&join(lines, "\n"));
    s
}

/// What is told in any case: the rules of the conversation and the persona.
pub fn make_pinned(system_prompt: &str, persona: &str, max_context: i64) -> (r: Vec<String>)
    requires
        max_context >= 0,
    ensures
        texts(r@) == pinned_sections(system_prompt@, persona@, max_context as int),
{
    let mut out: Vec<String> = Vec::new();
    assert(texts(out@) =~= Seq::empty());
    let rules = trim(system_prompt);
    if !rules.as_str().is_empty() {
        let most: i64 = clamp(max_context / 3, 256, 8000) * 4;
        let mut s = "[Conversation System Prompt]\n".to_owned();
        s.append(&clip_chars(&rules, most as usize));
        out.push(s);
        assert(texts(out@) =~= seq![s@]);
    }
    let core = trim(persona);
    if !core.as_str().is_empty() {
        out.push(core);
    }
    assert(texts(out@) =~= pinned_sections(system_prompt@, persona@, max_context as int));
    out
}

} // verus!
