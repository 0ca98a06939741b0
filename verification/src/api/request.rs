//! What is asked of a model, and what to do with its answer.
use vstd::prelude::*;
use crate::api::reply::{error_of, parse_api_error_text};
use crate::api::{endpoint_of, normalize_base_url};
use crate::json::{
    add_member, array_value, json_of, object_value, pair_trees, text_value, trees, Json, JsonTree,
};
use crate::models::{ApiMessage, ApiRuntimeConfig};
use crate::sorting::views;
use crate::text::{blank, contains, has_part, is_blank, lowercase, opt_text, trimmed};

verus! {

// ---------------------------------------------------------------------------
// Requests
// ---------------------------------------------------------------------------

/// A message as it is sent.
pub open spec fn message_tree(m: ApiMessage<Seq<char>>) -> JsonTree {
    let pairs = seq![("role"@, JsonTree::Text(m.role)), ("content"@, JsonTree::Text(m.content))];
    JsonTree::Object(
        match m.reasoning_content {
            Some(r) => pairs.push(("reasoning_content"@, JsonTree::Text(r))),
            None => pairs,
        },
    )
}

/// The messages as they are sent.
pub open spec fn message_trees(messages: Seq<ApiMessage<Seq<char>>>) -> Seq<JsonTree> {
    Seq::new(messages.len(), |i: int| message_tree(messages[i]))
}

/// The members that every request has.
pub open spec fn basic_pairs(
    config: ApiRuntimeConfig<Seq<char>>,
    messages: Seq<ApiMessage<Seq<char>>>,
    stream: bool,
) -> Seq<(Seq<char>, JsonTree)> {
    seq![
        ("model"@, JsonTree::Text(config.model)),
        ("messages"@, JsonTree::Array(message_trees(messages))),
        ("max_tokens"@, JsonTree::Number(Some(config.max_tokens))),
        ("stream"@, JsonTree::Bool(stream)),
    ]
}

/// The temperature, where it is sent.
pub open spec fn temperature_pairs(config: ApiRuntimeConfig<Seq<char>>) -> Seq<
    (Seq<char>, JsonTree),
> {
    if config.include_temperature {
        seq![("temperature"@, JsonTree::Real(config.temperature))]
    } else {
        Seq::empty()
    }
}

/// How to think, where it is said.
pub open spec fn thinking_pairs(config: ApiRuntimeConfig<Seq<char>>) -> Seq<
    (Seq<char>, JsonTree),
> {
    match config.deepseek_thinking_type {
        Some(t) => seq![("thinking"@, JsonTree::Object(seq![("type"@, JsonTree::Text(t))]))],
        None => Seq::empty(),
    }
}

/// How hard to think, where it is said.
pub open spec fn effort_pairs(config: ApiRuntimeConfig<Seq<char>>) -> Seq<(Seq<char>, JsonTree)> {
    match config.deepseek_reasoning_effort {
        Some(e) => seq![("reasoning_effort"@, JsonTree::Text(e))],
        None => Seq::empty(),
    }
}

/// That the tokens are to be counted, where it is asked.
pub open spec fn usage_pairs(include_usage: bool) -> Seq<(Seq<char>, JsonTree)> {
    if include_usage {
        seq![
            (
                "stream_options"@,
                JsonTree::Object(seq![("include_usage"@, JsonTree::Bool(true))]),
            ),
        ]
    } else {
        Seq::empty()
    }
}

/// The body of a request.
pub open spec fn body_of(
    config: ApiRuntimeConfig<Seq<char>>,
    messages: Seq<ApiMessage<Seq<char>>>,
    stream: bool,
    include_usage: bool,
) -> JsonTree {
    JsonTree::Object(
        basic_pairs(config, messages, stream) + temperature_pairs(config) + thinking_pairs(config)
            + effort_pairs(config) + usage_pairs(include_usage),
    )
}

/// A request to a model.
#[derive(Debug)]
pub struct Request {
    pub endpoint: String,
    pub body: Json,
    /// What to identify with, where there is anything.
    pub bearer: Option<String>,
}

/// A message as it is sent.
fn message_value(m: &ApiMessage) -> (r: Json)
    ensures
        r@ == message_tree(m@),
{
    let mut pairs: Vec<(String, Json)> = Vec::new();
    add_member(&mut pairs, "role", text_value(&m.role));
    add_member(&mut pairs, "content", text_value(&m.content));
    assert(pair_trees(pairs@) =~= seq![
        ("role"@, JsonTree::Text(m@.role)),
        ("content"@, JsonTree::Text(m@.content)),
    ]);
    if let Some(r) = &m.reasoning_content {
        add_member(&mut pairs, "reasoning_content", text_value(r));
    }
    object_value(pairs)
}

/// An object with one member.
fn single(key: &str, value: Json) -> (r: Json)
    ensures
        r@ == JsonTree::Object(seq![(key@, value@)]),
{
    let mut pairs: Vec<(String, Json)> = Vec::new();
    add_member(&mut pairs, key, value);
    assert(pair_trees(pairs@) =~= seq![(key@, value@)]);
    object_value(pairs)
}

/// The body of a request.
pub fn request_body(
    config: &ApiRuntimeConfig,
    messages: &Vec<ApiMessage>,
    stream: bool,
    include_usage: bool,
) -> (r: Json)
    ensures
        r@ == body_of(config@, views(messages@), stream, include_usage),
{
    let mut items: Vec<Json> = Vec::new();
    let ghost all = message_trees(views(messages@));
    for i in 0..messages.len()
        invariant
            all == message_trees(views(messages@)),
            trees(items@) == all.take(i as int),
    {
        let x = message_value(&messages[i]);
        let ghost next = trees(items@).push(x@);
        items.push(x);
        assert(trees(items@) =~= next);
        assert(all.take(i + 1) =~= next);
    }
    assert(all.take(all.len() as int) =~= all);
    let mut pairs: Vec<(String, Json)> = Vec::new();
    add_member(&mut pairs, "model", text_value(&config.model));
    add_member(&mut pairs, "messages", array_value(items));
    add_member(&mut pairs, "max_tokens", Json::Number(Some(config.max_tokens)));
    add_member(&mut pairs, "stream", Json::Bool(stream));
    let ghost p0 = basic_pairs(config@, views(messages@), stream);
    assert(pair_trees(pairs@) =~= p0);
    if config.include_temperature {
        add_member(&mut pairs, "temperature", Json::Real(config.temperature));
    }
    let ghost p1 = p0 + temperature_pairs(config@);
    assert(pair_trees(pairs@) =~= p1);
    if let Some(t) = &config.deepseek_thinking_type {
        add_member(&mut pairs, "thinking", single("type", text_value(t)));
    }
    let ghost p2 = p1 + thinking_pairs(config@);
    assert(pair_trees(pairs@) =~= p2);
    if let Some(e) = &config.deepseek_reasoning_effort {
        add_member(&mut pairs, "reasoning_effort", text_value(e));
    }
    let ghost p3 = p2 + effort_pairs(config@);
    assert(pair_trees(pairs@) =~= p3);
    if include_usage {
        add_member(&mut pairs, "stream_options", single("include_usage", Json::Bool(true)));
    }
    assert(pair_trees(pairs@) =~= p3 + usage_pairs(include_usage));
    object_value(pairs)
}

// ---------------------------------------------------------------------------
// Attempts
// ---------------------------------------------------------------------------

/// The three ways in which a model is asked, one after the other.
#[derive(Clone, Copy, Debug, PartialEq, Eq, Structural)]
pub enum Attempt {
    /// A stream that counts tokens.
    Counted,
    /// A stream.
    Uncounted,
    /// A reply in one piece.
    Whole,
}

/// What to do with the answer to a request.
#[derive(Debug)]
pub enum Next {
    /// Ask in another way.
    Ask(Attempt),
    /// Read the stream.
    ReadStream,
    /// Read the reply in one piece.
    ReadWhole,
    /// Give up, for this reason.
    Fail(String),
}

/// What to do with the answer to a request, over mathematical sequences.
pub enum NextSpec {
    Ask(Attempt),
    ReadStream,
    ReadWhole,
    Fail(Seq<char>),
}

impl View for Next {
    type V = NextSpec;

    open spec fn view(&self) -> NextSpec {
        match *self {
            Next::Ask(a) => NextSpec::Ask(a),
            Next::ReadStream => NextSpec::ReadStream,
            Next::ReadWhole => NextSpec::ReadWhole,
            Next::Fail(e) => NextSpec::Fail(e@),
        }
    }
}

/// What is said of a refused request.
pub open spec fn refusal(status: Seq<char>, reason: Seq<char>) -> Seq<char> {
    "model api error ["@ + status + "]: "@ + reason
}

/// What to do when a request was answered: `content_type` is in lower case.
pub open spec fn after_success(attempt: Attempt, content_type: Seq<char>) -> NextSpec {
    if attempt == Attempt::Whole {
        NextSpec::ReadWhole
    } else if has_part(content_type, "text/event-stream"@) {
        NextSpec::ReadStream
    } else {
        NextSpec::ReadWhole
    }
}

/// What to do when a request was refused: with a text that is `lower` in lower
/// case, and for `reason`.
pub open spec fn after_refusal(
    attempt: Attempt,
    status: Seq<char>,
    text: Seq<char>,
    lower: Seq<char>,
    reason: Seq<char>,
) -> NextSpec {
    match attempt {
        Attempt::Counted => if has_part(text, "stream_options"@) || has_part(lower, "unsupported"@) {
            NextSpec::Ask(Attempt::Uncounted)
        } else if has_part(lower, "stream"@) {
            NextSpec::Ask(Attempt::Whole)
        } else {
            NextSpec::Fail(refusal(status, reason))
        },
        Attempt::Uncounted => NextSpec::Ask(Attempt::Whole),
        Attempt::Whole => NextSpec::Fail(refusal(status, reason)),
    }
}

/// The request of an attempt.
pub open spec fn attempt_body(
    attempt: Attempt,
    config: ApiRuntimeConfig<Seq<char>>,
    messages: Seq<ApiMessage<Seq<char>>>,
) -> JsonTree {
    body_of(config, messages, attempt != Attempt::Whole, attempt == Attempt::Counted)
}

/// What a request identifies with: the key, where there is one.
pub open spec fn bearer_of(api_key: Seq<char>) -> Option<Seq<char>> {
    if is_blank(api_key) {
        None
    } else {
        Some(api_key)
    }
}

/// The request of an attempt.
pub fn make_request(
    attempt: Attempt,
    config: &ApiRuntimeConfig,
    messages: &Vec<ApiMessage>,
) -> (r: Request)
    ensures
        r.endpoint@ == endpoint_of(config@.base_url),
        r.body@ == attempt_body(attempt, config@, views(messages@)),
        opt_text(r.bearer) == bearer_of(config@.api_key),
{
    let body = request_body(
        config,
        messages,
        attempt != Attempt::Whole,
        attempt == Attempt::Counted,
    );
    Request {
        endpoint: normalize_base_url(&config.base_url),
        body,
        bearer: if blank(&config.api_key) {
            None
        } else {
            Some(config.api_key.clone())
        },
    }
}

/// What to do when a request was answered: `content_type` is in lower case.
pub fn accept_lowered(attempt: Attempt, content_type: &str) -> (r: Next)
    ensures
        r@ == after_success(attempt, content_type@),
{
    if attempt == Attempt::Whole {
        Next::ReadWhole
    } else if contains(content_type, "text/event-stream") {
        Next::ReadStream
    } else {
        Next::ReadWhole
    }
}

/// What to do when a request was answered.
pub fn accept(attempt: Attempt, content_type: &str) -> (r: Next)
    ensures
        r@ == after_success(attempt, lowercase(content_type@)),
{
    accept_lowered(attempt, &content_type.to_lowercase())
}

/// What to do when a request was refused: with a text that is `lower` in lower
/// case, and for `reason`.
pub fn refuse_lowered(attempt: Attempt, status: &str, text: &str, lower: &str, reason: &str) -> (r:
    Next)
    ensures
        r@ == after_refusal(attempt, status@, text@, lower@, reason@),
{
    if attempt == Attempt::Uncounted {
        return Next::Ask(Attempt::Whole);
    }
    if attempt == Attempt::Counted {
        if contains(text, "stream_options") || contains(lower, "unsupported") {
            return Next::Ask(Attempt::Uncounted);
        }
        if contains(lower, "stream") {
            return Next::Ask(Attempt::Whole);
        }
    }
    let mut e = "model api error [".to_owned();
    e.append(status);
    e.append("]: ");
    e.append(reason);
    Next::Fail(e)
}

/// What to do when a request was refused with a text.
pub fn refuse(attempt: Attempt, status: &str, text: &str) -> (r: Next)
    ensures
        r@ == after_refusal(
            attempt,
            status@,
            text@,
            lowercase(text@),
            error_of(trimmed(text@), json_of(trimmed(text@))),
        ),
{
    let reason = parse_api_error_text(text);
    refuse_lowered(attempt, status, text, &text.to_lowercase(), &reason)
}

/// How many more ways there are to ask.
pub open spec fn ways_left(attempt: Attempt) -> nat {
    match attempt {
        Attempt::Counted => 2,
        Attempt::Uncounted => 1,
        Attempt::Whole => 0,
    }
}

/// Each refusal leads closer to an end: no way of asking is tried twice.
pub proof fn law_attempts_end(
    attempt: Attempt,
    status: Seq<char>,
    text: Seq<char>,
    lower: Seq<char>,
    reason: Seq<char>,
)
    ensures
        match after_refusal(attempt, status, text, lower, reason) {
            NextSpec::Ask(a) => ways_left(a) < ways_left(attempt),
            NextSpec::Fail(e) => e == refusal(status, reason),
            _ => false,
        },
{
}

} // verus!
