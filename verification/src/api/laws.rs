//! What a model is sent and what is read of its replies, told by what goes in
//! and what comes out.
use vstd::prelude::*;
use crate::api::endpoint_of;
use crate::api::reply::{
    completion_of, content_text, error_of, has_block, law_stripped, reply_of, stripped, tidied,
    Completion,
};
use crate::api::request::{
    after_refusal, after_success, attempt_body, bearer_of, Attempt, NextSpec,
};
use crate::api::stream::{
    after_line, after_lines, after_part, after_text, after_value, lines_in, not_started, payload_of,
    whole_pieces, Piece, Progress,
};
use crate::json::{json_of, law_first_member, law_no_member, member, JsonTree};
use crate::models::{ApiMessage, ApiRuntimeConfig, TokenUsage};
use crate::text::{
    ends, found_from, has_part, is_blank, is_white_space, joined, law_trimmed_ends, law_trimmed_of,
    lemma_one_piece, occurs_at, pieces, starts, trimmed,
};

verus! {

// ---------------------------------------------------------------------------
// Streams
// ---------------------------------------------------------------------------

/// A value of a stream has a first choice with this delta and reports no error.
pub open spec fn carries(j: JsonTree, delta: JsonTree) -> bool {
    &&& member(j, "error"@) is None
    &&& match member(j, "choices"@) {
        Some(JsonTree::Array(items)) => items.len() > 0 && member(items[0], "delta"@) == Some(
            delta,
        ),
        _ => false,
    }
}

/// Where the delta holds a text under `content`, that text is shown as it is,
/// white space and all, behind any reasoning, and the content that was read
/// grows by it.
pub proof fn law_content_is_shown_as_it_is(
    p: Progress<Seq<char>>,
    j: JsonTree,
    delta: JsonTree,
    s: Seq<char>,
)
    requires
        carries(j, delta),
        member(delta, "content"@) == Some(JsonTree::Text(s)),
        s.len() > 0,
    ensures
        ({
            let fed = after_value(p, j);
            &&& fed.error is None
            &&& fed.pieces.len() > 0
            &&& fed.pieces.last() == Piece::Content(s)
            &&& fed.progress.content == p.content + s
            &&& fed.progress.pending == p.pending
            &&& fed.progress.done == p.done
            &&& member(delta, "reasoning_content"@) is None && member(delta, "reasoning"@) is None
                ==> fed.pieces.len() == 1 && fed.progress.reasoning == p.reasoning
        }),
{
    reveal_with_fuel(crate::api::stream::content_text_of, 4);
    reveal_with_fuel(crate::api::stream::reasoning_text, 4);
    let fed = after_value(p, j);
    assert(fed.pieces.drop_last() =~= fed.pieces.take(fed.pieces.len() - 1));
    if fed.pieces.len() == 2 {
        assert(fed.pieces.drop_last().drop_last() =~= Seq::empty());
    } else {
        assert(fed.pieces.drop_last() =~= Seq::empty());
        assert(p.reasoning + Seq::<char>::empty() =~= p.reasoning);
    }
    assert(Seq::<char>::empty() + s =~= s);
}

/// Where the delta holds a text under `reasoning_content`, or under `reasoning`
/// where that is missing, it is shown as reasoning before any content, and the
/// reasoning that was read grows by it. Without content none is shown.
pub proof fn law_reasoning_is_shown_as_it_is(
    p: Progress<Seq<char>>,
    j: JsonTree,
    delta: JsonTree,
    r: Seq<char>,
)
    requires
        carries(j, delta),
        member(delta, "reasoning_content"@) == Some(JsonTree::Text(r)) || (member(
            delta,
            "reasoning_content"@,
        ) is None && member(delta, "reasoning"@) == Some(JsonTree::Text(r))),
        r.len() > 0,
    ensures
        ({
            let fed = after_value(p, j);
            &&& fed.error is None
            &&& fed.pieces.len() > 0
            &&& fed.pieces[0] == Piece::Reasoning(r)
            &&& fed.progress.reasoning == p.reasoning + r
            &&& member(delta, "content"@) is None && member(delta, "text"@) is None
                ==> fed.pieces.len() == 1 && fed.progress.content == p.content
        }),
{
    reveal_with_fuel(crate::api::stream::content_text_of, 4);
    reveal_with_fuel(crate::api::stream::reasoning_text, 4);
    let fed = after_value(p, j);
    if fed.pieces.len() == 2 {
        assert(fed.pieces.drop_last().drop_last() =~= Seq::empty());
        assert(fed.pieces.drop_last()[0] == fed.pieces[0]);
    } else {
        assert(fed.pieces.drop_last() =~= Seq::empty());
        assert(p.content + Seq::<char>::empty() =~= p.content);
    }
    assert(Seq::<char>::empty() + r =~= r);
}

/// Where the delta has no content, a text under `text` is shown in its place.
pub proof fn law_text_stands_for_content(
    p: Progress<Seq<char>>,
    j: JsonTree,
    delta: JsonTree,
    s: Seq<char>,
)
    requires
        carries(j, delta),
        member(delta, "content"@) is None,
        member(delta, "text"@) == Some(JsonTree::Text(s)),
        s.len() > 0,
    ensures
        after_value(p, j).pieces.len() > 0,
        after_value(p, j).pieces.last() == Piece::Content(s),
        after_value(p, j).progress.content == p.content + s,
{
    reveal_with_fuel(crate::api::stream::content_text_of, 4);
    let fed = after_value(p, j);
    if fed.pieces.len() == 2 {
        assert(fed.pieces.drop_last().drop_last() =~= Seq::empty());
    } else {
        assert(fed.pieces.drop_last() =~= Seq::empty());
    }
    assert(Seq::<char>::empty() + s =~= s);
}

/// A content that is a list says what its elements say, one after the other: an
/// element its own text, or that of its content.
pub proof fn law_content_lists_are_read(a: Seq<JsonTree>, item: JsonTree, t: Seq<char>)
    requires
        member(item, "text"@) == Some(JsonTree::Text(t)) || (member(item, "text"@) is None && exists|
            c: JsonTree,
        |
            member(item, "content"@) == Some(c) && #[trigger] member(c, "text"@) == Some(
                JsonTree::Text(t),
            )),
    ensures
        content_text(Some(JsonTree::Array(a.push(item)))) == content_text(
            Some(JsonTree::Array(a)),
        ) + t,
        content_text(Some(JsonTree::Array(Seq::empty()))) == Seq::<char>::empty(),
{
    assert(a.push(item).drop_last() =~= a);
}

/// What a stream reports as an error ends it with that text, and nothing of the
/// value is shown.
pub proof fn law_stream_errors_are_told(
    p: Progress<Seq<char>>,
    j: JsonTree,
    e: JsonTree,
    m: Seq<char>,
)
    requires
        member(j, "error"@) == Some(e),
        member(e, "message"@) == Some(JsonTree::Text(m)) || (member(e, "message"@) is None
            && member(e, "msg"@) == Some(JsonTree::Text(m))),
    ensures
        after_value(p, j).error == Some("model stream error: "@ + m),
        after_value(p, j).pieces.len() == 0,
        after_value(p, j).progress == p,
{
}

/// The tokens that were used are those that the last value with a count says;
/// a count that is missing is zero.
pub proof fn law_tokens_are_counted(p: Progress<Seq<char>>, j: JsonTree)
    requires
        member(j, "error"@) is None,
    ensures
        match member(j, "usage"@) {
            Some(u) => {
                let got = after_value(p, j).progress.usage;
                &&& member(u, "prompt_tokens"@) matches Some(JsonTree::Number(Some(n)))
                    ==> got.prompt == n
                &&& member(u, "completion_tokens"@) matches Some(JsonTree::Number(Some(n)))
                    ==> got.completion == n
                &&& member(u, "total_tokens"@) matches Some(JsonTree::Number(Some(n)))
                    ==> got.total == n
                &&& member(u, "prompt_tokens"@) is None ==> got.prompt == 0
                &&& member(u, "completion_tokens"@) is None ==> got.completion == 0
                &&& member(u, "total_tokens"@) is None ==> got.total == 0
            },
            None => after_value(p, j).progress.usage == p.usage,
        },
{
}

/// A line of a stream carries what stands behind `data:` and white space.
pub proof fn law_lines_carry_data(w: Seq<char>, x: Seq<char>)
    requires
        forall|i: int| 0 <= i < w.len() ==> is_white_space(#[trigger] w[i]),
        x.len() > 0,
        trimmed(x) == x,
        !starts(x, "data:"@),
    ensures
        payload_of("data:"@ + w + x) == Some(x),
{
    reveal_strlit("data:");
    let key = "data:"@;
    let line = key + w + x;
    let none = Seq::<char>::empty();
    law_trimmed_ends(x);
    law_trimmed_of(none, line, none);
    assert(none + line + none =~= line);
    assert(line.take(5) =~= key);
    assert(line.skip(5) =~= w + x);
    law_trimmed_of(w, x, none);
    assert(w + x + none =~= w + x);
    reveal_with_fuel(crate::api::stream::without_leading, 2);
    if starts(w + x, key) {
        assert((w + x).take(5)[0] == 'd');
        if w.len() > 0 {
            assert((w + x)[0] == w[0]);
        } else {
            assert(w + x =~= x);
        }
    }
}

/// A line that does not begin with `data:` carries nothing.
pub proof fn law_other_lines_are_passed_over(p: Progress<Seq<char>>, line: Seq<char>)
    requires
        !starts(trimmed(line), "data:"@),
    ensures
        after_line(p, line).progress == p,
        after_line(p, line).pieces.len() == 0,
        after_line(p, line).error is None,
{
}

/// A complete line is read at once, when no beginning of a line was left over.
proof fn lemma_one_line(p: Progress<Seq<char>>, line: Seq<char>)
    requires
        p.pending.len() == 0,
        !p.done,
        !line.contains('\n'),
    ensures
        after_text(p, line.push('\n')) == after_line(p, line),
{
    let sep = |c: char| c == '\n';
    assert(p.pending + line.push('\n') =~= line.push('\n'));
    assert forall|k: int| 0 <= k < line.len() implies !sep(#[trigger] line[k]) by {
        assert(line.contains(line[k]));
    }
    lemma_one_piece(line, sep);
    assert(line.push('\n').drop_last() =~= line);
    assert(pieces(line.push('\n'), sep) =~= seq![line, Seq::empty()]);
    let lines = lines_in(p.pending + line.push('\n'));
    assert(lines == pieces(line.push('\n'), sep));
    assert(lines.drop_last() =~= seq![line]);
    assert(p.pending =~= Seq::empty());
    let start = Progress { pending: lines.last(), ..p };
    assert(start == p);
    reveal_with_fuel(crate::api::stream::after_lines, 2);
    assert(seq![line].drop_last() =~= Seq::empty());
    let step = after_line(p, line);
    assert(Seq::<Piece<Seq<char>>>::empty() + step.pieces =~= step.pieces);
}

/// A line of a stream whose data is a value with a content shows that content
/// as it is: nothing is lost of it, and nothing is added.
pub proof fn law_stream_shows_content(
    p: Progress<Seq<char>>,
    w: Seq<char>,
    x: Seq<char>,
    j: JsonTree,
    delta: JsonTree,
    s: Seq<char>,
)
    requires
        p.pending.len() == 0,
        !p.done,
        forall|i: int| 0 <= i < w.len() ==> is_white_space(#[trigger] w[i]) && w[i] != '\n',
        x.len() > 0,
        trimmed(x) == x,
        !starts(x, "data:"@),
        !x.contains('\n'),
        x != "[DONE]"@,
        json_of(x) == Some(j),
        carries(j, delta),
        member(delta, "content"@) == Some(JsonTree::Text(s)),
        s.len() > 0,
    ensures
        ({
            let fed = after_text(p, ("data:"@ + w + x).push('\n'));
            &&& fed.error is None
            &&& fed.pieces.len() > 0
            &&& fed.pieces.last() == Piece::Content(s)
            &&& fed.progress.content == p.content + s
            &&& fed.progress.pending.len() == 0
            &&& !fed.progress.done
        }),
{
    law_lines_carry_data(w, x);
    let line = "data:"@ + w + x;
    lemma_no_line_end(w, x);
    lemma_one_line(p, line);
    law_content_is_shown_as_it_is(p, j, delta, s);
}

proof fn lemma_no_line_end(w: Seq<char>, x: Seq<char>)
    requires
        forall|i: int| 0 <= i < w.len() ==> #[trigger] w[i] != '\n',
        !x.contains('\n'),
    ensures
        !("data:"@ + w + x).contains('\n'),
{
    reveal_strlit("data:");
    let line = "data:"@ + w + x;
    if line.contains('\n') {
        let k = line.index_of('\n');
        if k >= 5 + w.len() {
            assert(x[k - 5 - w.len()] == '\n');
        } else if k >= 5 {
            assert(w[k - 5] == '\n');
        } else {
            assert("data:"@[k] == '\n');
        }
    }
}

/// `[DONE]` ends a stream: nothing of it is shown, and what was read stays.
pub proof fn law_done_ends_the_stream(p: Progress<Seq<char>>, w: Seq<char>)
    requires
        p.pending.len() == 0,
        !p.done,
        forall|i: int| 0 <= i < w.len() ==> is_white_space(#[trigger] w[i]) && w[i] != '\n',
    ensures
        ({
            let fed = after_text(p, ("data:"@ + w + "[DONE]"@).push('\n'));
            &&& fed.progress == (Progress { done: true, ..p })
            &&& fed.pieces.len() == 0
            &&& fed.error is None
        }),
{
    let x = "[DONE]"@;
    reveal_strlit("[DONE]");
    reveal_strlit("data:");
    let none = Seq::<char>::empty();
    law_trimmed_of(none, x, none);
    assert(none + x + none =~= x);
    if starts(x, "data:"@) {
        assert(x.take(5)[0] == 'd');
    }
    law_lines_carry_data(w, x);
    if x.contains('\n') {
        let k = x.index_of('\n');
        assert(x[k] == '\n');
    }
    lemma_no_line_end(w, x);
    lemma_one_line(p, "data:"@ + w + x);
}

/// Once a stream is done, nothing of what still comes is read.
pub proof fn law_nothing_is_read_behind_the_end(p: Progress<Seq<char>>, part: Seq<char>)
    requires
        p.done,
    ensures
        after_text(p, part).pieces.len() == 0,
        after_text(p, part).error is None,
        after_text(p, part).progress.content == p.content,
        after_text(p, part).progress.reasoning == p.reasoning,
        after_text(p, part).progress.usage == p.usage,
        after_text(p, part).progress.done,
{
    let lines = lines_in(p.pending + part);
    lemma_done(Progress { pending: lines.last(), ..p }, lines.drop_last());
}

proof fn lemma_done(p: Progress<Seq<char>>, lines: Seq<Seq<char>>)
    requires
        p.done,
    ensures
        after_lines(p, lines).pieces.len() == 0,
        after_lines(p, lines).error is None,
        after_lines(p, lines).progress == p,
    decreases lines.len(),
{
    if lines.len() > 0 {
        lemma_done(p, lines.drop_last());
    }
}

/// Where the reader asked to stop, nothing more is read and nothing shown.
pub proof fn law_stopping_reads_nothing(p: Progress<Seq<char>>, part: Seq<char>)
    ensures
        after_part(p, true, part).progress == (Progress { done: true, ..p }),
        after_part(p, true, part).pieces.len() == 0,
        after_part(p, false, part) == after_text(p, part),
        not_started().content.len() == 0,
        not_started().reasoning.len() == 0,
        not_started().pending.len() == 0,
        !not_started().done,
        not_started().usage == (TokenUsage { prompt: 0, completion: 0, total: 0 }),
{
}

// ---------------------------------------------------------------------------
// Replies
// ---------------------------------------------------------------------------

/// A reply without reasoning between tags keeps its content, without the white
/// space around it, its reasoning and its count.
pub proof fn law_plain_replies_stay(content: Seq<char>, reasoning: Seq<char>, usage: TokenUsage)
    requires
        !has_block(content, "<thinking>"@, "</thinking>"@),
        !has_block(content, "<think>"@, "</think>"@),
    ensures
        tidied(content, reasoning, usage) == (Completion {
            content: trimmed(content),
            reasoning,
            usage,
        }),
{
    reveal_strlit("<thinking>");
    reveal_strlit("<think>");
    law_stripped(content, "<thinking>"@, "</thinking>"@, Seq::empty());
    law_stripped(content, "<think>"@, "</think>"@, Seq::empty());
}

/// Reasoning between tags is taken out of the content and put behind the other
/// reasoning: of `a<think>b</think>c` the content is what `a` and `c` say, and
/// the reasoning is `b`, without the white space around them.
pub proof fn law_reasoning_between_tags_is_taken_out(
    a: Seq<char>,
    b: Seq<char>,
    c: Seq<char>,
    reasoning: Seq<char>,
    usage: TokenUsage,
)
    requires
        ({
            let s = a + "<think>"@ + b + "</think>"@ + c;
            &&& !has_block(s, "<thinking>"@, "</thinking>"@)
            &&& !has_block(a + c, "<think>"@, "</think>"@)
            &&& forall|k: int| 0 <= k < a.len() ==> !#[trigger] occurs_at(s, "<think>"@, k)
            &&& forall|k: int|
                a.len() + 7 <= k < a.len() + 7 + b.len() ==> !#[trigger] occurs_at(
                    s,
                    "</think>"@,
                    k,
                )
        }),
        !is_blank(b),
    ensures
        ({
            let s = a + "<think>"@ + b + "</think>"@ + c;
            let r = tidied(s, reasoning, usage);
            &&& r.content == trimmed(a + c)
            &&& r.reasoning == if is_blank(reasoning) {
                trimmed(b)
            } else {
                reasoning + "\n\n"@ + trimmed(b)
            }
            &&& r.usage == usage
        }),
{
    let open = "<think>"@;
    let close = "</think>"@;
    reveal_strlit("<thinking>");
    reveal_strlit("<think>");
    reveal_strlit("</think>");
    let s = a + open + b + close + c;
    law_stripped(s, "<thinking>"@, "</thinking>"@, Seq::empty());
    let n = a.len() as int;
    let m = n + 7 + b.len();
    assert(s.subrange(n, n + 7) =~= open);
    assert(s.subrange(m, m + 8) =~= close);
    lemma_found_at(s, open, 0, n);
    lemma_found_at(s, close, n + 7, m);
    assert(s.subrange(n + 7, m) =~= b);
    assert(s.take(n) + s.skip(m + 8) =~= a + c);
    let found = Seq::<Seq<char>>::empty().push(trimmed(b));
    law_stripped(a + c, open, close, found);
    assert(stripped(s, open, close, Seq::empty()) == stripped(a + c, open, close, found));
    assert(joined(found, "\n\n"@) == trimmed(b));
}

/// The first place is found.
proof fn lemma_found_at(s: Seq<char>, p: Seq<char>, from: int, at: int)
    requires
        0 <= from <= at,
        occurs_at(s, p, at),
        forall|k: int| from <= k < at ==> !#[trigger] occurs_at(s, p, k),
    ensures
        found_from(s, p, from) == Some(at),
    decreases at - from,
{
    if from < at {
        lemma_found_at(s, p, from + 1, at);
    }
}

/// A reply in one piece says the content of the message of its first choice;
/// its reasoning, where it has any, comes along, and so does its count.
pub proof fn law_whole_replies_are_read(
    body: Seq<char>,
    j: JsonTree,
    items: Seq<JsonTree>,
    message: JsonTree,
    s: Seq<char>,
)
    requires
        member(j, "error"@) is None,
        member(j, "choices"@) == Some(JsonTree::Array(items)),
        items.len() > 0,
        member(items[0], "message"@) == Some(message),
        message is Object,
        member(message, "content"@) == Some(JsonTree::Text(s)),
        !has_block(s, "<thinking>"@, "</thinking>"@),
        !has_block(s, "<think>"@, "</think>"@),
    ensures
        match reply_of(body, Some(j)) {
            Ok(c) => {
                &&& c.content == trimmed(s)
                &&& member(message, "reasoning_content"@) matches Some(JsonTree::Text(r))
                    ==> c.reasoning == r
                &&& member(message, "reasoning_content"@) is None ==> (member(
                    message,
                    "reasoning"@,
                ) matches Some(JsonTree::Text(r)) ==> c.reasoning == r)
                &&& member(message, "reasoning_content"@) is None && member(
                    message,
                    "reasoning"@,
                ) is None && member(items[0], "reasoning_content"@) is None ==> c.reasoning.len()
                    == 0
                &&& member(j, "usage"@) is None ==> c.usage == (TokenUsage {
                    prompt: 0,
                    completion: 0,
                    total: 0,
                })
                &&& member(j, "usage"@) matches Some(u) ==> {
                    &&& member(u, "prompt_tokens"@) matches Some(JsonTree::Number(Some(n)))
                        ==> c.usage.prompt == n
                    &&& member(u, "completion_tokens"@) matches Some(JsonTree::Number(Some(n)))
                        ==> c.usage.completion == n
                    &&& member(u, "total_tokens"@) matches Some(JsonTree::Number(Some(n)))
                        ==> c.usage.total == n
                }
            },
            Err(_) => false,
        },
{
    let c = completion_of(j);
    law_plain_replies_stay(s, c.reasoning, c.usage);
    let reasoning = crate::api::reply::text_or_empty(
        crate::json::text_of_tree(
            crate::json::or_tree(
                crate::json::or_tree(
                    member(message, "reasoning_content"@),
                    member(message, "reasoning"@),
                ),
                member(items[0], "reasoning_content"@),
            ),
        ),
    );
    law_plain_replies_stay(s, reasoning, c.usage);
}

/// A reply that is no value, or reports an error, is refused with what it says.
pub proof fn law_faulty_replies_are_refused(body: Seq<char>, j: JsonTree, e: JsonTree, m: Seq<char>)
    requires
        member(j, "error"@) == Some(e),
        member(e, "message"@) == Some(JsonTree::Text(m)),
    ensures
        reply_of(body, Some(j)) == Err::<Completion<Seq<char>>, Seq<char>>(
            "model api error: "@ + m,
        ),
        reply_of(body, None) == Err::<Completion<Seq<char>>, Seq<char>>(
            "parse non-stream response failed: "@ + body,
        ),
{
}

/// What is said of a refused request: the error that the answer reports, else
/// its message, else its text.
pub proof fn law_refusals_are_described(text: Seq<char>, j: JsonTree)
    requires
        text.len() > 0,
    ensures
        error_of(text, None) == text,
        error_of(Seq::empty(), Some(j)) == "empty response body"@,
        error_of(Seq::empty(), None) == "empty response body"@,
        member(j, "error"@) matches Some(e) ==> (member(e, "message"@) matches Some(
            JsonTree::Text(m),
        ) ==> error_of(text, Some(j)) == m),
        member(j, "error"@) is None ==> (member(j, "message"@) matches Some(JsonTree::Text(m))
            ==> error_of(text, Some(j)) == m),
        member(j, "error"@) is None && member(j, "message"@) is None ==> error_of(text, Some(j))
            == text,
{
}

/// A reply that came in one is shown whole, reasoning first; what is empty is
/// not shown.
pub proof fn law_whole_replies_are_shown(c: Completion<Seq<char>>)
    ensures
        c.content.len() > 0 ==> whole_pieces(c).len() > 0 && whole_pieces(c).last()
            == Piece::Content(c.content),
        c.reasoning.len() > 0 ==> whole_pieces(c).len() > 0 && whole_pieces(c)[0]
            == Piece::Reasoning(c.reasoning),
        whole_pieces(c).len() == (if c.content.len() > 0 {
            1int
        } else {
            0
        }) + (if c.reasoning.len() > 0 {
            1int
        } else {
            0
        }),
{
}

// ---------------------------------------------------------------------------
// Requests
// ---------------------------------------------------------------------------

/// The messages of a request are those that were to be sent, in their order,
/// each with its role and its content under these names, and with its reasoning
/// where it has any.
pub proof fn law_messages_are_sent(
    attempt: Attempt,
    config: ApiRuntimeConfig<Seq<char>>,
    messages: Seq<ApiMessage<Seq<char>>>,
)
    ensures
        match member(attempt_body(attempt, config, messages), "messages"@) {
            Some(JsonTree::Array(items)) => {
                &&& items.len() == messages.len()
                &&& forall|i: int|
                    0 <= i < messages.len() ==> {
                        let m = messages[i];
                        &&& member(#[trigger] items[i], "role"@) == Some(JsonTree::Text(m.role))
                        &&& member(items[i], "content"@) == Some(JsonTree::Text(m.content))
                        &&& member(items[i], "reasoning_content"@) == match m.reasoning_content {
                            Some(r) => Some(JsonTree::Text(r)),
                            None => None,
                        }
                    }
            },
            _ => false,
        },
{
    lemma_keys();
    let body = attempt_body(attempt, config, messages);
    law_first_member(body->Object_0, "messages"@, 1);
    let items = body->Object_0[1].1->Array_0;
    assert forall|i: int| 0 <= i < messages.len() implies {
        let m = messages[i];
        &&& member(#[trigger] items[i], "role"@) == Some(JsonTree::Text(m.role))
        &&& member(items[i], "content"@) == Some(JsonTree::Text(m.content))
        &&& member(items[i], "reasoning_content"@) == match m.reasoning_content {
            Some(r) => Some(JsonTree::Text(r)),
            None => None,
        }
    } by {
        let all = items[i]->Object_0;
        law_first_member(all, "role"@, 0);
        law_first_member(all, "content"@, 1);
        if messages[i].reasoning_content is Some {
            law_first_member(all, "reasoning_content"@, 2);
        } else {
            law_no_member(all, "reasoning_content"@);
        }
    }
}

/// The names of what is sent differ.
proof fn lemma_keys()
    ensures
        "role"@[0] == 'r' && "role"@.len() == 4,
        "content"@[0] == 'c' && "content"@.len() == 7,
        "reasoning_content"@[0] == 'r' && "reasoning_content"@.len() == 17,
        "model"@[0] == 'm' && "model"@.len() == 5,
        "messages"@[0] == 'm' && "messages"@.len() == 8,
        "max_tokens"@[0] == 'm' && "max_tokens"@.len() == 10,
        "stream"@[0] == 's' && "stream"@.len() == 6,
        "temperature"@[0] == 't' && "temperature"@[1] == 'e',
        "thinking"@[0] == 't' && "thinking"@[1] == 'h',
        "reasoning_effort"@[0] == 'r' && "reasoning_effort"@.len() == 16,
        "stream_options"@[0] == 's' && "stream_options"@.len() == 14,
{
    reveal_strlit("role");
    reveal_strlit("content");
    reveal_strlit("reasoning_content");
    reveal_strlit("model");
    reveal_strlit("messages");
    reveal_strlit("max_tokens");
    reveal_strlit("stream");
    reveal_strlit("temperature");
    reveal_strlit("thinking");
    reveal_strlit("reasoning_effort");
    reveal_strlit("stream_options");
}

/// A request names its model and how long the answer may be; it asks for a
/// stream in every way but the last, and for a count of tokens in the first
/// alone. The temperature and how to think are there where they are set.
pub proof fn law_requests_hold_what_is_set(
    attempt: Attempt,
    config: ApiRuntimeConfig<Seq<char>>,
    messages: Seq<ApiMessage<Seq<char>>>,
)
    ensures
        ({
            let body = attempt_body(attempt, config, messages);
            &&& member(body, "model"@) == Some(JsonTree::Text(config.model))
            &&& member(body, "max_tokens"@) == Some(JsonTree::Number(Some(config.max_tokens)))
            &&& member(body, "stream"@) == Some(JsonTree::Bool(attempt != Attempt::Whole))
            &&& member(body, "temperature"@) == if config.include_temperature {
                Some(JsonTree::Real(config.temperature))
            } else {
                None
            }
            &&& match config.deepseek_thinking_type {
                Some(t) => member(body, "thinking"@) matches Some(x) && member(x, "type"@) == Some(
                    JsonTree::Text(t),
                ),
                None => member(body, "thinking"@) is None,
            }
            &&& member(body, "reasoning_effort"@) == match config.deepseek_reasoning_effort {
                Some(e) => Some(JsonTree::Text(e)),
                None => None,
            }
            &&& if attempt == Attempt::Counted {
                member(body, "stream_options"@) matches Some(x) && member(x, "include_usage"@)
                    == Some(JsonTree::Bool(true))
            } else {
                member(body, "stream_options"@) is None
            }
        }),
{
    lemma_keys();
    let all = attempt_body(attempt, config, messages)->Object_0;
    let n1 = if config.include_temperature {
        5int
    } else {
        4
    };
    let n2 = if config.deepseek_thinking_type is Some {
        n1 + 1
    } else {
        n1
    };
    let n3 = if config.deepseek_reasoning_effort is Some {
        n2 + 1
    } else {
        n2
    };
    assert(all[0].0 == "model"@ && all[1].0 == "messages"@ && all[2].0 == "max_tokens"@ && all[3].0
        == "stream"@);
    assert(config.include_temperature ==> all[4].0 == "temperature"@);
    assert(config.deepseek_thinking_type is Some ==> all[n1].0 == "thinking"@);
    assert(config.deepseek_reasoning_effort is Some ==> all[n2].0 == "reasoning_effort"@);
    assert(attempt == Attempt::Counted ==> all[n3].0 == "stream_options"@);
    assert(all.len() == if attempt == Attempt::Counted {
        n3 + 1
    } else {
        n3
    });
    law_first_member(all, "model"@, 0);
    law_first_member(all, "max_tokens"@, 2);
    law_first_member(all, "stream"@, 3);
    if config.include_temperature {
        law_first_member(all, "temperature"@, 4);
    } else {
        law_no_member(all, "temperature"@);
    }
    match config.deepseek_thinking_type {
        Some(t) => {
            law_first_member(all, "thinking"@, n1);
            law_first_member(all[n1].1->Object_0, "type"@, 0);
        },
        None => {
            law_no_member(all, "thinking"@);
        },
    }
    if config.deepseek_reasoning_effort is Some {
        law_first_member(all, "reasoning_effort"@, n2);
    } else {
        law_no_member(all, "reasoning_effort"@);
    }
    if attempt == Attempt::Counted {
        law_first_member(all, "stream_options"@, n3);
        law_first_member(all[n3].1->Object_0, "include_usage"@, 0);
    } else {
        law_no_member(all, "stream_options"@);
    }
}

/// When a request is refused, the next way of asking is chosen by what the
/// answer complains of: the count of tokens is left out where it is not
/// supported, the stream where that is; the last way fails with the status and
/// the reason.
pub proof fn law_refused_requests_are_asked_again(
    status: Seq<char>,
    text: Seq<char>,
    lower: Seq<char>,
    reason: Seq<char>,
)
    ensures
        has_part(text, "stream_options"@) || has_part(lower, "unsupported"@) ==> after_refusal(
            Attempt::Counted,
            status,
            text,
            lower,
            reason,
        ) == NextSpec::Ask(Attempt::Uncounted),
        !has_part(text, "stream_options"@) && !has_part(lower, "unsupported"@) && has_part(
            lower,
            "stream"@,
        ) ==> after_refusal(Attempt::Counted, status, text, lower, reason) == NextSpec::Ask(
            Attempt::Whole,
        ),
        !has_part(text, "stream_options"@) && !has_part(lower, "unsupported"@) && !has_part(
            lower,
            "stream"@,
        ) ==> after_refusal(Attempt::Counted, status, text, lower, reason) == NextSpec::Fail(
            "model api error ["@ + status + "]: "@ + reason,
        ),
        after_refusal(Attempt::Uncounted, status, text, lower, reason) == NextSpec::Ask(
            Attempt::Whole,
        ),
        after_refusal(Attempt::Whole, status, text, lower, reason) == NextSpec::Fail(
            "model api error ["@ + status + "]: "@ + reason,
        ),
{
}

/// A stream is read as such where one was asked for and came; everything else
/// is read in one piece.
pub proof fn law_answers_are_read_as_what_they_are(content_type: Seq<char>, attempt: Attempt)
    ensures
        after_success(attempt, content_type) == NextSpec::ReadStream <==> attempt != Attempt::Whole
            && has_part(content_type, "text/event-stream"@),
        after_success(attempt, content_type) == NextSpec::ReadWhole <==> !(attempt
            != Attempt::Whole && has_part(content_type, "text/event-stream"@)),
{
}

/// An address is completed to that of the chats: one that is complete stays,
/// one that ends with the version gets the rest, any other gets both. Slashes at
/// its end and white space around it count for nothing.
pub proof fn law_addresses_are_completed(base: Seq<char>, slashes: Seq<char>)
    requires
        base.len() > 0,
        base.last() != '/',
        !is_white_space(base[0]),
        !is_white_space(base.last()),
        forall|i: int| 0 <= i < slashes.len() ==> #[trigger] slashes[i] == '/',
    ensures
        ends(base, "/chat/completions"@) ==> endpoint_of(base + slashes) == base,
        !ends(base, "/chat/completions"@) && ends(base, "/v1"@) ==> endpoint_of(base + slashes)
            == base + "/chat/completions"@,
        !ends(base, "/chat/completions"@) && !ends(base, "/v1"@) ==> endpoint_of(base + slashes)
            == base + "/v1/chat/completions"@,
        endpoint_of(Seq::empty()) == "https://api.deepseek.com/v1/chat/completions"@,
{
    let none = Seq::<char>::empty();
    let s = base + slashes;
    if slashes.len() > 0 {
        assert(s.last() == slashes[slashes.len() - 1]);
    } else {
        assert(s =~= base);
    }
    law_trimmed_of(none, s, none);
    assert(none + s + none =~= s);
    lemma_slashes(base, slashes);
    law_trimmed_of(none, none, none);
    assert(none + none + none =~= none);
}

proof fn lemma_slashes(base: Seq<char>, slashes: Seq<char>)
    requires
        base.len() > 0,
        base.last() != '/',
        forall|i: int| 0 <= i < slashes.len() ==> #[trigger] slashes[i] == '/',
    ensures
        crate::api::without_trailing(base + slashes, '/') == base,
    decreases slashes.len(),
{
    if slashes.len() > 0 {
        let s = base + slashes;
        assert(s.last() == slashes[slashes.len() - 1]);
        assert(s.drop_last() =~= base + slashes.drop_last());
        assert forall|i: int| 0 <= i < slashes.drop_last().len() implies #[trigger]
            slashes.drop_last()[i] == '/' by {
            assert(slashes.drop_last()[i] == slashes[i]);
        }
        lemma_slashes(base, slashes.drop_last());
    } else {
        assert(base + slashes =~= base);
    }
}

/// A reply in one piece without a message says the text of its first choice.
pub proof fn law_old_replies_are_read(
    body: Seq<char>,
    j: JsonTree,
    items: Seq<JsonTree>,
    s: Seq<char>,
)
    requires
        member(j, "error"@) is None,
        member(j, "choices"@) == Some(JsonTree::Array(items)),
        items.len() > 0,
        member(items[0], "message"@) is None,
        member(items[0], "text"@) == Some(JsonTree::Text(s)),
        !has_block(s, "<thinking>"@, "</thinking>"@),
        !has_block(s, "<think>"@, "</think>"@),
    ensures
        reply_of(body, Some(j)) matches Ok(c) && c.content == trimmed(s),
{
    let c = completion_of(j);
    let reasoning = crate::api::reply::text_or_empty(
        crate::json::text_of_tree(member(items[0], "reasoning_content"@)),
    );
    law_plain_replies_stay(s, reasoning, c.usage);
}

/// Several stretches of reasoning between tags are put one behind the other with
/// a blank line between them, those between `thinking` tags first.
pub proof fn law_stretches_of_reasoning(
    a: Seq<char>,
    x: Seq<char>,
    b: Seq<char>,
    y: Seq<char>,
    c: Seq<char>,
    usage: TokenUsage,
)
    requires
        ({
            let s = a + "<thinking>"@ + x + "</thinking>"@ + (b + "<think>"@ + y + "</think>"@ + c);
            let t = (a + b) + "<think>"@ + y + "</think>"@ + c;
            &&& forall|k: int| 0 <= k < a.len() ==> !#[trigger] occurs_at(s, "<thinking>"@, k)
            &&& forall|k: int|
                a.len() + 10 <= k < a.len() + 10 + x.len() ==> !#[trigger] occurs_at(
                    s,
                    "</thinking>"@,
                    k,
                )
            &&& !has_block(t, "<thinking>"@, "</thinking>"@)
            &&& forall|k: int|
                0 <= k < a.len() + b.len() ==> !#[trigger] occurs_at(t, "<think>"@, k)
            &&& forall|k: int|
                a.len() + b.len() + 7 <= k < a.len() + b.len() + 7 + y.len()
                    ==> !#[trigger] occurs_at(t, "</think>"@, k)
            &&& !has_block((a + b) + c, "<think>"@, "</think>"@)
        }),
        !is_blank(x),
        !is_blank(y),
    ensures
        ({
            let s = a + "<thinking>"@ + x + "</thinking>"@ + (b + "<think>"@ + y + "</think>"@ + c);
            let r = tidied(s, Seq::empty(), usage);
            &&& r.content == trimmed((a + b) + c)
            &&& r.reasoning == trimmed(x) + "\n\n"@ + trimmed(y)
        }),
{
    reveal_strlit("<thinking>");
    reveal_strlit("</thinking>");
    reveal_strlit("<think>");
    reveal_strlit("</think>");
    let tail = b + "<think>"@ + y + "</think>"@ + c;
    let s = a + "<thinking>"@ + x + "</thinking>"@ + tail;
    let t = (a + b) + "<think>"@ + y + "</think>"@ + c;
    let n = a.len() as int;
    let m = n + 10 + x.len();
    assert(s.subrange(n, n + 10) =~= "<thinking>"@);
    assert(s.subrange(m, m + 11) =~= "</thinking>"@);
    lemma_found_at(s, "<thinking>"@, 0, n);
    lemma_found_at(s, "</thinking>"@, n + 10, m);
    assert(s.subrange(n + 10, m) =~= x);
    assert(s.take(n) + s.skip(m + 11) =~= t);
    let one = Seq::<Seq<char>>::empty().push(trimmed(x));
    law_stripped(t, "<thinking>"@, "</thinking>"@, one);
    assert(stripped(s, "<thinking>"@, "</thinking>"@, Seq::empty()) == (t, one));
    let k = (a + b).len() as int;
    let l = k + 7 + y.len();
    assert(t.subrange(k, k + 7) =~= "<think>"@);
    assert(t.subrange(l, l + 8) =~= "</think>"@);
    lemma_found_at(t, "<think>"@, 0, k);
    lemma_found_at(t, "</think>"@, k + 7, l);
    assert(t.subrange(k + 7, l) =~= y);
    assert(t.take(k) + t.skip(l + 8) =~= (a + b) + c);
    let two = one.push(trimmed(y));
    law_stripped((a + b) + c, "<think>"@, "</think>"@, two);
    assert(stripped(t, "<think>"@, "</think>"@, one) == ((a + b) + c, two));
    assert(two.drop_last() =~= one);
    assert(joined(one, "\n\n"@) == trimmed(x));
    let none = Seq::<char>::empty();
    law_trimmed_of(none, none, none);
    assert(none + none + none =~= none);
}

/// A request identifies with the key as it is; a blank key is not sent.
pub proof fn law_keys_are_sent(api_key: Seq<char>)
    ensures
        trimmed(api_key).len() > 0 ==> bearer_of(api_key) == Some(api_key),
        trimmed(api_key).len() == 0 ==> bearer_of(api_key) is None,
{
}

} // verus!
