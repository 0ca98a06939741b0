//! Fitting what a model is told into a budget of tokens.
use vstd::prelude::*;
use crate::context::{
    estimate_messages_tokens, estimate_tokens, message_tokens, messages_tokens, tokens,
};
use crate::models::{ApiMessage, Message};
use crate::settings::{clamp, clamped};
use crate::sorting::views;
use crate::text::{
    blank, clip_chars, clipped, is_blank, join, joined, text_eq, texts, trim, trimmed,
};

verus! {

// ---------------------------------------------------------------------------
// Messages
// ---------------------------------------------------------------------------

/// The message is part of the talk and says something.
pub open spec fn is_talk(m: Message<Seq<char>>) -> bool {
    (m.role == "user"@ || m.role == "assistant"@) && !is_blank(m.content)
}

/// A message of the talk as it is sent; with `replay` an answer keeps its
/// reasoning.
pub open spec fn sent_as(m: Message<Seq<char>>, replay: bool) -> ApiMessage<Seq<char>> {
    ApiMessage {
        role: m.role,
        content: clipped(m.content, 7000),
        reasoning_content: if replay && m.role == "assistant"@ && !is_blank(m.reasoning_content) {
            Some(clipped(m.reasoning_content, 7000))
        } else {
            None
        },
    }
}

/// The messages of the talk as they are sent.
pub open spec fn talk(ms: Seq<Message<Seq<char>>>, replay: bool) -> Seq<ApiMessage<Seq<char>>>
    decreases ms.len(),
{
    if ms.len() == 0 {
        Seq::empty()
    } else {
        let before = talk(ms.drop_last(), replay);
        if is_talk(ms.last()) {
            before.push(sent_as(ms.last(), replay))
        } else {
            before
        }
    }
}

/// The newest message is what the user says now.
pub open spec fn ends_with_input(ms: Seq<Message<Seq<char>>>, input: Seq<char>) -> bool {
    ms.len() > 0 && ms.last().role == "user"@ && trimmed(ms.last().content) == trimmed(input)
}

/// What the user says now, as it is sent.
pub open spec fn input_message(input: Seq<char>, max_context: int) -> ApiMessage<Seq<char>> {
    ApiMessage {
        role: "user"@,
        content: clipped(input, clamped(max_context * 2, 1200, 24000)),
        reasoning_content: None,
    }
}

/// The messages that are sent: the talk, and behind it what the user says now
/// where it is not part of the talk.
pub open spec fn with_input(
    recent: Seq<ApiMessage<Seq<char>>>,
    input: ApiMessage<Seq<char>>,
    has_input: bool,
) -> Seq<ApiMessage<Seq<char>>> {
    if has_input {
        recent
    } else {
        recent.push(input)
    }
}

/// The newest messages of the talk that fit: the oldest go as long as all that
/// is sent, with `extra` tokens, is over `limit`.
pub open spec fn fitting(
    recent: Seq<ApiMessage<Seq<char>>>,
    input: ApiMessage<Seq<char>>,
    has_input: bool,
    extra: int,
    limit: int,
) -> Seq<ApiMessage<Seq<char>>>
    decreases recent.len(),
{
    if messages_tokens(with_input(recent, input, has_input)) + extra > limit && recent.len() > (
    if has_input {
        1int
    } else {
        0
    }) {
        fitting(recent.skip(1), input, has_input, extra, limit)
    } else {
        recent
    }
}

/// The messages that are sent, at least what the user says now.
pub open spec fn at_least_input(
    ms: Seq<ApiMessage<Seq<char>>>,
    input: ApiMessage<Seq<char>>,
) -> Seq<ApiMessage<Seq<char>>> {
    if ms.len() == 0 {
        seq![input]
    } else {
        ms
    }
}

/// The tokens that the pinned sections are taken to have.
pub open spec fn pinned_tokens(pinned: Seq<Seq<char>>) -> int {
    tokens(joined(pinned, "\n\n"@)) + 8
}

/// The messages that are sent beside the pinned sections.
pub open spec fn sent_messages(
    pinned: Seq<Seq<char>>,
    recent: Seq<Message<Seq<char>>>,
    input: Seq<char>,
    max_context: int,
    replay: bool,
) -> Seq<ApiMessage<Seq<char>>> {
    let now = input_message(input, max_context);
    let has_input = ends_with_input(recent, input);
    let first = fitting(talk(recent, replay), now, has_input, 0, max_context - 256);
    let second = fitting(first, now, has_input, pinned_tokens(pinned), max_context - 96);
    at_least_input(with_input(second, now, has_input), now)
}

// ---------------------------------------------------------------------------
// Sections
// ---------------------------------------------------------------------------

/// The sections that are told, and the tokens that are used with them.
pub struct Chosen {
    pub sections: Seq<Seq<char>>,
    pub used: int,
}

/// The sections that are told when `used` tokens are used: in their order, each
/// that still fits.
pub open spec fn chosen(
    pinned: Seq<Seq<char>>,
    optional: Seq<Seq<char>>,
    used: int,
    max_context: int,
) -> Chosen
    decreases optional.len(),
{
    if optional.len() == 0 {
        Chosen { sections: pinned, used }
    } else {
        let before = chosen(pinned, optional.drop_last(), used, max_context);
        let s = optional.last();
        if !is_blank(s) && before.used + tokens(s) + 8 <= max_context {
            Chosen { sections: before.sections.push(s), used: before.used + tokens(s) + 8 }
        } else {
            before
        }
    }
}

/// The message with all sections.
pub open spec fn system_message(sections: Seq<Seq<char>>) -> ApiMessage<Seq<char>> {
    ApiMessage {
        role: "system"@,
        content: clipped(joined(sections, "\n\n"@), 32000),
        reasoning_content: None,
    }
}

/// All that a model is told.
pub open spec fn context(
    pinned: Seq<Seq<char>>,
    optional: Seq<Seq<char>>,
    recent: Seq<Message<Seq<char>>>,
    input: Seq<char>,
    max_context: int,
    replay: bool,
) -> Seq<ApiMessage<Seq<char>>> {
    let sent = sent_messages(pinned, recent, input, max_context, replay);
    let told = chosen(
        pinned,
        optional,
        pinned_tokens(pinned) + messages_tokens(sent),
        max_context,
    );
    seq![system_message(told.sections)] + sent
}

// ---------------------------------------------------------------------------
// The operations
// ---------------------------------------------------------------------------

/// The most tokens that a message of the talk has.
pub const MESSAGE_TOKENS: i64 = 6100;

/// No message is longer than what is sent of a talk.
pub open spec fn are_short(ms: Seq<ApiMessage<Seq<char>>>) -> bool {
    forall|i: int| 0 <= i < ms.len() ==> message_tokens(#[trigger] ms[i]) <= MESSAGE_TOKENS
}

/// Short messages have few tokens in all.
proof fn lemma_short(ms: Seq<ApiMessage<Seq<char>>>)
    requires
        are_short(ms),
    ensures
        0 <= messages_tokens(ms) <= ms.len() * MESSAGE_TOKENS,
    decreases ms.len(),
{
    if ms.len() > 0 {
        let front = ms.drop_last();
        assert forall|i: int| 0 <= i < front.len() implies message_tokens(#[trigger] front[i])
            <= MESSAGE_TOKENS by {
            assert(front[i] == ms[i]);
        }
        lemma_short(front);
        assert(message_tokens(ms[ms.len() - 1]) <= MESSAGE_TOKENS);
        assert(front.len() * MESSAGE_TOKENS + MESSAGE_TOKENS == ms.len() * MESSAGE_TOKENS)
            by (nonlinear_arith)
            requires
                ms.len() == front.len() + 1,
        ;
    }
}

/// The messages of the talk as they are sent.
pub fn make_talk(ms: &Vec<Message>, replay: bool) -> (r: Vec<ApiMessage>)
    ensures
        views(r@) == talk(views(ms@), replay),
        r@.len() <= ms@.len(),
        are_short(views(r@)),
{
    let ghost all = views(ms@);
    let mut out: Vec<ApiMessage> = Vec::new();
    assert(views(out@) =~= Seq::empty());
    for i in 0..ms.len()
        invariant
            all == views(ms@),
            out@.len() <= i,
            views(out@) == talk(all.take(i as int), replay),
            are_short(views(out@)),
    {
        assert(all.take(i + 1).drop_last() =~= all.take(i as int));
        let m = &ms[i];
        assert(all[i as int] == m@);
        let user = text_eq(&m.role, "user");
        let assistant = text_eq(&m.role, "assistant");
        if (user || assistant) && !blank(&m.content) {
            let x = ApiMessage {
                role: m.role.clone(),
                content: clip_chars(&m.content, 7000),
                reasoning_content: if replay && assistant && !blank(&m.reasoning_content) {
                    Some(clip_chars(&m.reasoning_content, 7000))
                } else {
                    None
                },
            };
            proof {
                reveal_strlit("user");
                reveal_strlit("assistant");
                assert(message_tokens(x@) <= MESSAGE_TOKENS);
            }
            let ghost before = views(out@);
            let ghost next = before.push(x@);
            out.push(x);
            assert(views(out@) =~= next);
            assert forall|k: int| 0 <= k < next.len() implies message_tokens(#[trigger] next[k])
                <= MESSAGE_TOKENS by {
                if k < before.len() {
                    assert(next[k] == before[k]);
                }
            }
        }
    }
    assert(all.take(all.len() as int) =~= all);
    out
}

/// The messages that are sent.
fn add_input(recent: &Vec<ApiMessage>, input: &ApiMessage, has_input: bool) -> (r: Vec<ApiMessage>)
    ensures
        views(r@) == with_input(views(recent@), input@, has_input),
{
    let mut out: Vec<ApiMessage> = Vec::new();
    let ghost all = views(recent@);
    for i in 0..recent.len()
        invariant
            all == views(recent@),
            views(out@) == all.take(i as int),
    {
        let x = recent[i].clone();
        let ghost next = views(out@).push(x@);
        out.push(x);
        assert(views(out@) =~= next);
        assert(all.take(i + 1) =~= next);
    }
    assert(all.take(all.len() as int) =~= all);
    if !has_input {
        let x = input.clone();
        let ghost next = views(out@).push(x@);
        out.push(x);
        assert(views(out@) =~= next);
    }
    out
}

/// Drops the oldest messages as long as all that is sent, with `extra` tokens,
/// is over `limit`.
fn fit(
    recent: Vec<ApiMessage>,
    input: &ApiMessage,
    has_input: bool,
    extra: i64,
    limit: i64,
) -> (r: Vec<ApiMessage>)
    requires
        are_short(views(recent@)),
        message_tokens(input@) <= MESSAGE_TOKENS,
        recent@.len() <= 48,
        0 <= extra <= 0x4000_0000_0000_0010,
    ensures
        views(r@) == fitting(views(recent@), input@, has_input, extra as int, limit as int),
        r@.len() <= recent@.len(),
        are_short(views(r@)),
{
    let mut left = recent;
    let keep: usize = if has_input {
        1
    } else {
        0
    };
    let ghost want = fitting(views(recent@), input@, has_input, extra as int, limit as int);
    loop
        invariant
            want == fitting(views(recent@), input@, has_input, extra as int, limit as int),
            want == fitting(views(left@), input@, has_input, extra as int, limit as int),
            are_short(views(left@)),
            message_tokens(input@) <= MESSAGE_TOKENS,
            left@.len() <= recent@.len() <= 48,
            0 <= extra <= 0x4000_0000_0000_0010,
            keep == (if has_input {
                1int
            } else {
                0
            }),
        decreases left.len(),
    {
        let all = add_input(&left, input, has_input);
        proof {
            assert forall|i: int| 0 <= i < views(all@).len() implies message_tokens(
                #[trigger] views(all@)[i],
            ) <= MESSAGE_TOKENS by {
                if i < left@.len() {
                    assert(views(all@)[i] == views(left@)[i]);
                }
            }
            lemma_short(views(all@));
            assert(views(all@).len() * MESSAGE_TOKENS <= 49 * 6100) by (nonlinear_arith)
                requires
                    views(all@).len() <= 49,
                    MESSAGE_TOKENS == 6100,
            ;
        }
        let used: i64 = estimate_messages_tokens(&all);
        if !(used + extra > limit && left.len() > keep) {
            return left;
        }
        let ghost before = views(left@);
        let _ = left.remove(0);
        assert(views(left@) =~= before.skip(1));
        assert forall|i: int| 0 <= i < views(left@).len() implies message_tokens(
            #[trigger] views(left@)[i],
        ) <= MESSAGE_TOKENS by {
            assert(views(left@)[i] == before[i + 1]);
        }
    }
}

/// The newest message is what the user says now.
pub fn has_latest_input(ms: &Vec<Message>, input: &str) -> (r: bool)
    ensures
        r == ends_with_input(views(ms@), input@),
{
    if ms.len() == 0 {
        return false;
    }
    let m = &ms[ms.len() - 1];
    assert(views(ms@).last() == m@);
    text_eq(&m.role, "user") && text_eq(&trim(&m.content), &trim(input))
}

/// All that a model is told.
pub fn assemble_context(
    pinned: Vec<String>,
    optional: &Vec<String>,
    recent: &Vec<Message>,
    input: &str,
    max_context: i64,
    replay: bool,
) -> (r: Vec<ApiMessage>)
    requires
        2048 <= max_context <= 128000,
        recent@.len() <= 48,
    ensures
        views(r@) == context(
            texts(pinned@),
            texts(optional@),
            views(recent@),
            input@,
            max_context as int,
            replay,
        ),
{
    let ghost head = texts(pinned@);
    let most: i64 = clamp(max_context * 2, 1200, 24000);
    let now = ApiMessage {
        role: "user".to_owned(),
        content: clip_chars(input, most as usize),
        reasoning_content: None,
    };
    proof {
        reveal_strlit("user");
        assert(message_tokens(now@) <= MESSAGE_TOKENS);
    }
    let has_input = has_latest_input(recent, input);
    let first = fit(make_talk(recent, replay), &now, has_input, 0, max_context - 256);
    let pinned_text = join(&pinned, "\n\n");
    let pinned_tokens: i64 = estimate_tokens(&pinned_text) + 8;
    let second = fit(first, &now, has_input, pinned_tokens, max_context - 96);
    let mut sent = add_input(&second, &now, has_input);
    if sent.len() == 0 {
        let x = now.clone();
        sent.push(x);
        assert(views(sent@) =~= seq![now@]);
    }
    assert(views(sent@) == sent_messages(
        head,
        views(recent@),
        input@,
        max_context as int,
        replay,
    ));
    proof {
        assert forall|i: int| 0 <= i < views(sent@).len() implies message_tokens(
            #[trigger] views(sent@)[i],
        ) <= MESSAGE_TOKENS by {
            if i < second@.len() {
                assert(views(sent@)[i] == views(second@)[i]);
            }
        }
        lemma_short(views(sent@));
        assert(views(sent@).len() * MESSAGE_TOKENS <= 49 * 6100) by (nonlinear_arith)
            requires
                views(sent@).len() <= 49,
                MESSAGE_TOKENS == 6100,
        ;
    }
    let mut used: i64 = pinned_tokens + estimate_messages_tokens(&sent);
    let ghost start = used as int;
    let mut sections = pinned;
    let ghost all = texts(optional@);
    for i in 0..optional.len()
        invariant
            all == texts(optional@),
            2048 <= max_context <= 128000,
            0 <= start <= 0x4000_0000_0000_0010 + 49 * 6100,
            0 <= used <= start || 0 <= used <= max_context,
            texts(sections@) == chosen(head, all.take(i as int), start, max_context as int).sections,
            used == chosen(head, all.take(i as int), start, max_context as int).used,
    {
        assert(all.take(i + 1).drop_last() =~= all.take(i as int));
        assert(all[i as int] == optional@[i as int]@);
        if !blank(&optional[i]) {
            let cost: i64 = estimate_tokens(&optional[i]) + 8;
            if cost <= max_context - used {
                let s = optional[i].clone();
                let ghost next = texts(sections@).push(s@);
                sections.push(s);
                assert(texts(sections@) =~= next);
                used = used + cost;
            }
        }
    }
    assert(all.take(all.len() as int) =~= all);
    let mut out: Vec<ApiMessage> = Vec::new();
    let system = ApiMessage {
        role: "system".to_owned(),
        content: clip_chars(&join(&sections, "\n\n"), 32000),
        reasoning_content: None,
    };
    let ghost tail = views(sent@);
    out.push(system);
    out.append(&mut sent);
    assert(views(out@) =~= seq![system@] + tail);
    out
}

// ---------------------------------------------------------------------------
// Laws
// ---------------------------------------------------------------------------

/// What fits are the newest messages; where the talk holds what the user says
/// now, that stays.
proof fn lemma_fitting(
    recent: Seq<ApiMessage<Seq<char>>>,
    input: ApiMessage<Seq<char>>,
    has_input: bool,
    extra: int,
    limit: int,
)
    ensures
        ({
            let r = fitting(recent, input, has_input, extra, limit);
            &&& r.len() <= recent.len()
            &&& r == recent.skip(recent.len() - r.len())
            &&& has_input && recent.len() > 0 ==> r.len() > 0
            &&& messages_tokens(with_input(r, input, has_input)) + extra <= limit || r.len() <= (
            if has_input {
                1int
            } else {
                0
            })
        }),
    decreases recent.len(),
{
    let r = fitting(recent, input, has_input, extra, limit);
    let keep = if has_input {
        1int
    } else {
        0
    };
    if messages_tokens(with_input(recent, input, has_input)) + extra > limit && recent.len()
        > keep {
        lemma_fitting(recent.skip(1), input, has_input, extra, limit);
        assert(recent.skip(1).skip(recent.skip(1).len() - r.len()) =~= recent.skip(
            recent.len() - r.len(),
        ));
    } else {
        assert(recent.skip(0) =~= recent);
    }
}

/// The messages that are sent are the newest of the talk and, where it is not
/// one of them, what the user says now.
pub proof fn law_newest_messages_are_sent(
    pinned: Seq<Seq<char>>,
    recent: Seq<Message<Seq<char>>>,
    input: Seq<char>,
    max_context: int,
    replay: bool,
)
    ensures
        ({
            let all = talk(recent, replay);
            let now = input_message(input, max_context);
            exists|k: int|
                0 <= k <= all.len() && sent_messages(pinned, recent, input, max_context, replay)
                    == at_least_input(
                    with_input(#[trigger] all.skip(k), now, ends_with_input(recent, input)),
                    now,
                )
        }),
{
    let all = talk(recent, replay);
    let now = input_message(input, max_context);
    let has_input = ends_with_input(recent, input);
    let first = fitting(all, now, has_input, 0, max_context - 256);
    let second = fitting(first, now, has_input, pinned_tokens(pinned), max_context - 96);
    lemma_fitting(all, now, has_input, 0, max_context - 256);
    lemma_fitting(first, now, has_input, pinned_tokens(pinned), max_context - 96);
    assert(second =~= all.skip(all.len() - second.len()));
}

/// The last message that a model is told is what the user says now.
pub proof fn law_input_comes_last(
    pinned: Seq<Seq<char>>,
    optional: Seq<Seq<char>>,
    recent: Seq<Message<Seq<char>>>,
    input: Seq<char>,
    max_context: int,
    replay: bool,
)
    requires
        !is_blank(input),
    ensures
        context(pinned, optional, recent, input, max_context, replay).last() == (
        if ends_with_input(recent, input) {
            sent_as(recent.last(), replay)
        } else {
            input_message(input, max_context)
        }),
{
    let all = talk(recent, replay);
    let now = input_message(input, max_context);
    let has_input = ends_with_input(recent, input);
    let first = fitting(all, now, has_input, 0, max_context - 256);
    let second = fitting(first, now, has_input, pinned_tokens(pinned), max_context - 96);
    lemma_fitting(all, now, has_input, 0, max_context - 256);
    lemma_fitting(first, now, has_input, pinned_tokens(pinned), max_context - 96);
    let sent = sent_messages(pinned, recent, input, max_context, replay);
    if has_input {
        assert(is_talk(recent.last()));
        assert(all.last() == sent_as(recent.last(), replay));
        assert(second.last() == all.last());
    }
    assert(sent.len() > 0);
    let out = context(pinned, optional, recent, input, max_context, replay);
    assert(out.last() == sent.last());
}

/// Old messages are left out until everything that has to be told fits; only
/// what the user says now is sent in any case.
pub proof fn law_messages_fit(
    pinned: Seq<Seq<char>>,
    recent: Seq<Message<Seq<char>>>,
    input: Seq<char>,
    max_context: int,
    replay: bool,
)
    ensures
        ({
            let sent = sent_messages(pinned, recent, input, max_context, replay);
            sent.len() == 1 || messages_tokens(sent) + pinned_tokens(pinned) <= max_context - 96
        }),
{
    let all = talk(recent, replay);
    let now = input_message(input, max_context);
    let has_input = ends_with_input(recent, input);
    let first = fitting(all, now, has_input, 0, max_context - 256);
    lemma_fitting(first, now, has_input, pinned_tokens(pinned), max_context - 96);
}

/// The tokens that sections are taken to have beside the pinned ones.
pub open spec fn sections_tokens(sections: Seq<Seq<char>>) -> int
    decreases sections.len(),
{
    if sections.len() == 0 {
        0
    } else {
        sections_tokens(sections.drop_last()) + tokens(sections.last()) + 8
    }
}

/// The pinned sections are told first, and what is told fits.
pub proof fn lemma_chosen(
    pinned: Seq<Seq<char>>,
    optional: Seq<Seq<char>>,
    used: int,
    max_context: int,
)
    ensures
        ({
            let told = chosen(pinned, optional, used, max_context);
            &&& told.sections.len() >= pinned.len()
            &&& told.sections.take(pinned.len() as int) == pinned
            &&& told.used == used + sections_tokens(told.sections.skip(pinned.len() as int))
            &&& told.sections.len() > pinned.len() ==> told.used <= max_context
        }),
    decreases optional.len(),
{
    let told = chosen(pinned, optional, used, max_context);
    let n = pinned.len() as int;
    if optional.len() == 0 {
        assert(told.sections.take(n) =~= pinned);
        assert(told.sections.skip(n) =~= Seq::empty());
    } else {
        lemma_chosen(pinned, optional.drop_last(), used, max_context);
        let before = chosen(pinned, optional.drop_last(), used, max_context);
        if told.sections.len() > before.sections.len() {
            assert(told.sections.take(n) =~= before.sections.take(n));
            assert(told.sections.skip(n).drop_last() =~= before.sections.skip(n));
            assert(told.sections.skip(n).last() == optional.last());
        }
    }
}

/// A section beside the pinned ones is told only where everything together
/// stays within the budget, and the pinned ones come first.
pub proof fn law_sections_fit(
    pinned: Seq<Seq<char>>,
    optional: Seq<Seq<char>>,
    recent: Seq<Message<Seq<char>>>,
    input: Seq<char>,
    max_context: int,
    replay: bool,
)
    ensures
        ({
            let sent = sent_messages(pinned, recent, input, max_context, replay);
            let start = pinned_tokens(pinned) + messages_tokens(sent);
            let told = chosen(pinned, optional, start, max_context).sections;
            let n = pinned.len() as int;
            &&& context(pinned, optional, recent, input, max_context, replay)[0]
                == system_message(told)
            &&& told.take(n) == pinned
            &&& told.len() > n ==> start + sections_tokens(told.skip(n)) <= max_context
        }),
{
    let sent = sent_messages(pinned, recent, input, max_context, replay);
    lemma_chosen(pinned, optional, pinned_tokens(pinned) + messages_tokens(sent), max_context);
}

/// A section is left out only where it is blank or too long for what the
/// sections before it leave of the budget.
pub proof fn law_left_out_only_where_too_long(
    pinned: Seq<Seq<char>>,
    optional: Seq<Seq<char>>,
    used: int,
    max_context: int,
    i: int,
)
    requires
        0 <= i < optional.len(),
    ensures
        ({
            let before = chosen(pinned, optional.take(i), used, max_context);
            let after = chosen(pinned, optional.take(i + 1), used, max_context);
            ||| after.sections == before.sections.push(optional[i])
            ||| is_blank(optional[i])
            ||| before.used + tokens(optional[i]) + 8 > max_context
        }),
{
    assert(optional.take(i + 1).drop_last() =~= optional.take(i));
}

/// No more messages are sent than were asked for, with what the user says now.
pub proof fn law_few_messages_are_sent(
    pinned: Seq<Seq<char>>,
    recent: Seq<Message<Seq<char>>>,
    input: Seq<char>,
    max_context: int,
    replay: bool,
)
    ensures
        1 <= sent_messages(pinned, recent, input, max_context, replay).len() <= recent.len() + 1,
{
    let all = talk(recent, replay);
    let now = input_message(input, max_context);
    let has_input = ends_with_input(recent, input);
    let first = fitting(all, now, has_input, 0, max_context - 256);
    lemma_fitting(all, now, has_input, 0, max_context - 256);
    lemma_fitting(first, now, has_input, pinned_tokens(pinned), max_context - 96);
    lemma_talk_length(recent, replay);
}

proof fn lemma_talk_length(ms: Seq<Message<Seq<char>>>, replay: bool)
    ensures
        talk(ms, replay).len() <= ms.len(),
    decreases ms.len(),
{
    if ms.len() > 0 {
        lemma_talk_length(ms.drop_last(), replay);
    }
}

} // verus!
