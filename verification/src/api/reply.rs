//! What a model's reply says.
use vstd::prelude::*;
use crate::json::{
    as_items, as_number, as_text, get, get_in, items_of_tree, json_of, member, member_of,
    number_of_tree, opt_tree, or, or_tree, parse, text_of_tree, trees, Json, JsonTree,
};
use crate::models::TokenUsage;
use crate::text::{
    blank, chars_of, find_chars, found_from, is_blank, join, joined, law_trimmed_stays, occurs_at,
    opt_str, opt_text, sub_chars, text_of, texts, trim, trim_chars, trimmed,
};

verus! {

// ---------------------------------------------------------------------------
// Errors
// ---------------------------------------------------------------------------

/// What a reply reports as an error.
pub open spec fn reported_error(j: Option<JsonTree>) -> Option<Seq<char>> {
    let e = member_of(j, "error"@);
    text_of_tree(or_tree(member_of(e, "message"@), member_of(e, "msg"@)))
}

/// What a refused request is answered, given the trimmed text of the answer and
/// the value that it is.
pub open spec fn error_of(text: Seq<char>, j: Option<JsonTree>) -> Seq<char> {
    if text.len() == 0 {
        "empty response body"@
    } else {
        match reported_error(j) {
            Some(m) => m,
            None => match text_of_tree(member_of(j, "message"@)) {
                Some(m) => m,
                None => text,
            },
        }
    }
}

/// What a reply reports as an error.
pub fn find_error<'a>(j: Option<&'a Json>) -> (r: Option<&'a str>)
    ensures
        opt_str(r) == reported_error(opt_tree(j)),
{
    let e = get_in(j, "error");
    as_text(or(get_in(e, "message"), get_in(e, "msg")))
}

/// What a refused request is answered, given the trimmed text of the answer and
/// the value that it is.
pub fn describe_error(text: &str, j: Option<&Json>) -> (r: String)
    ensures
        r@ == error_of(text@, opt_tree(j)),
{
    if text.is_empty() {
        return "empty response body".to_owned();
    }
    match find_error(j) {
        Some(m) => m.to_owned(),
        None => match as_text(get_in(j, "message")) {
            Some(m) => m.to_owned(),
            None => text.to_owned(),
        },
    }
}

/// What a refused request is answered.
pub fn parse_api_error_text(text: &str) -> (r: String)
    ensures
        r@ == error_of(trimmed(text@), json_of(trimmed(text@))),
{
    let t = trim(text);
    match parse(&t) {
        Some(j) => describe_error(&t, Some(&j)),
        None => describe_error(&t, None),
    }
}

// ---------------------------------------------------------------------------
// Parts
// ---------------------------------------------------------------------------

/// A number, or zero.
pub open spec fn number_or_zero(n: Option<i64>) -> i64 {
    match n {
        Some(v) => v,
        None => 0,
    }
}

/// The tokens that a reply says were used.
pub open spec fn usage_of(j: JsonTree) -> TokenUsage {
    TokenUsage {
        prompt: number_or_zero(number_of_tree(member(j, "prompt_tokens"@))),
        completion: number_or_zero(number_of_tree(member(j, "completion_tokens"@))),
        total: number_or_zero(number_of_tree(member(j, "total_tokens"@))),
    }
}

/// A number, or zero.
fn or_zero(n: Option<i64>) -> (r: i64)
    ensures
        r == number_or_zero(n),
{
    match n {
        Some(v) => v,
        None => 0,
    }
}

/// The tokens that a reply says were used.
pub fn parse_token_usage(j: &Json) -> (r: TokenUsage)
    ensures
        r == usage_of(j@),
{
    TokenUsage {
        prompt: or_zero(as_number(get(j, "prompt_tokens"))),
        completion: or_zero(as_number(get(j, "completion_tokens"))),
        total: or_zero(as_number(get(j, "total_tokens"))),
    }
}

/// A text that is not empty.
pub open spec fn nonempty(s: Option<Seq<char>>) -> Option<Seq<char>> {
    match s {
        Some(t) => if t.len() == 0 {
            None
        } else {
            Some(t)
        },
        None => None,
    }
}

/// The reasoning in a part of a reply.
pub open spec fn reasoning_in(delta: JsonTree) -> Option<Seq<char>> {
    nonempty(
        text_of_tree(or_tree(member(delta, "reasoning_content"@), member(delta, "reasoning"@))),
    )
}

/// The reasoning in a part of a reply.
pub fn extract_reasoning(delta: &Json) -> (r: Option<String>)
    ensures
        opt_text(r) == reasoning_in(delta@),
{
    match as_text(or(get(delta, "reasoning_content"), get(delta, "reasoning"))) {
        Some(s) => if s.is_empty() {
            None
        } else {
            Some(s.to_owned())
        },
        None => None,
    }
}

/// The text of an element of a content list.
pub open spec fn item_text(item: JsonTree) -> Seq<char> {
    match text_of_tree(member(item, "text"@)) {
        Some(t) => t,
        None => match text_of_tree(member_of(member(item, "content"@), "text"@)) {
            Some(t) => t,
            None => Seq::empty(),
        },
    }
}

/// The texts of a content list one after the other.
pub open spec fn items_text(items: Seq<JsonTree>) -> Seq<char>
    decreases items.len(),
{
    if items.len() == 0 {
        Seq::empty()
    } else {
        items_text(items.drop_last()) + item_text(items.last())
    }
}

/// The text of a content: of a text itself, of a list all its texts.
pub open spec fn content_text(node: Option<JsonTree>) -> Seq<char> {
    match node {
        Some(JsonTree::Text(s)) => s,
        Some(JsonTree::Array(items)) => items_text(items),
        _ => Seq::empty(),
    }
}

/// The text of a content: of a text itself, of a list all its texts.
pub fn read_content_text(node: Option<&Json>) -> (r: String)
    ensures
        r@ == content_text(opt_tree(node)),
{
    if let Some(s) = as_text(node) {
        return s.to_owned();
    }
    let mut out = String::new();
    if let Some(items) = as_items(node) {
        let ghost all = trees(items@);
        for i in 0..items.len()
            invariant
                all == trees(items@),
                out@ == items_text(all.take(i as int)),
        {
            assert(all.take(i + 1).drop_last() =~= all.take(i as int));
            assert(all[i as int] == items@[i as int]@);
            let item = &items[i];
            if let Some(t) = as_text(get(item, "text")) {
                out.append(t);
            } else if let Some(t) = as_text(get_in(get(item, "content"), "text")) {
                out.append(t);
            } else {
                assert(out@ + Seq::<char>::empty() =~= out@);
            }
        }
        assert(all.take(all.len() as int) =~= all);
    }
    out
}

/// The content in a part of a reply.
pub open spec fn content_in(delta: JsonTree) -> Option<Seq<char>> {
    let content = content_text(member(delta, "content"@));
    if content.len() > 0 {
        Some(content)
    } else {
        nonempty(text_of_tree(member(delta, "text"@)))
    }
}

/// The content in a part of a reply.
pub fn extract_delta_content(delta: &Json) -> (r: Option<String>)
    ensures
        opt_text(r) == content_in(delta@),
{
    let content = read_content_text(get(delta, "content"));
    if !content.as_str().is_empty() {
        return Some(content);
    }
    match as_text(get(delta, "text")) {
        Some(t) => if t.is_empty() {
            None
        } else {
            Some(t.to_owned())
        },
        None => None,
    }
}

// ---------------------------------------------------------------------------
// Reasoning between tags
// ---------------------------------------------------------------------------

/// Where the first block between two tags stands: the start of its opening tag
/// and that of its closing tag.
pub open spec fn first_block(s: Seq<char>, open: Seq<char>, close: Seq<char>) -> Option<
    (int, int),
> {
    match found_from(s, open, 0) {
        Some(start) => match found_from(s, close, start + open.len()) {
            Some(end) => Some((start, end)),
            None => None,
        },
        None => None,
    }
}

/// A text without the blocks between two tags, and what stood in them.
pub open spec fn stripped(
    s: Seq<char>,
    open: Seq<char>,
    close: Seq<char>,
    found: Seq<Seq<char>>,
) -> (Seq<char>, Seq<Seq<char>>)
    decreases s.len(),
    when open.len() > 0 || close.len() > 0
    via stripped_shrinks
{
    match first_block(s, open, close) {
        Some((start, end)) => {
            let inner = trimmed(s.subrange(start + open.len(), end));
            stripped(
                s.take(start) + s.skip(end + close.len()),
                open,
                close,
                if inner.len() == 0 {
                    found
                } else {
                    found.push(inner)
                },
            )
        },
        None => (s, found),
    }
}

#[via_fn]
proof fn stripped_shrinks(
    s: Seq<char>,
    open: Seq<char>,
    close: Seq<char>,
    found: Seq<Seq<char>>,
) {
    lemma_first_block(s, open, close);
}

/// A block lies within the text.
proof fn lemma_first_block(s: Seq<char>, open: Seq<char>, close: Seq<char>)
    ensures
        match first_block(s, open, close) {
            Some((start, end)) => 0 <= start && start + open.len() <= end && end + close.len()
                <= s.len(),
            None => true,
        },
{
    lemma_found_bounds(s, open, 0);
    match found_from(s, open, 0) {
        Some(start) => {
            lemma_found_bounds(s, close, start + open.len());
        },
        None => {},
    }
}

/// What is found lies within the text.
proof fn lemma_found_bounds(s: Seq<char>, p: Seq<char>, from: int)
    ensures
        match found_from(s, p, from) {
            Some(i) => 0 <= from <= i && i + p.len() <= s.len(),
            None => true,
        },
    decreases s.len() + 1 - from,
{
    if !(from < 0 || from + p.len() > s.len()) && !occurs_at(s, p, from) {
        lemma_found_bounds(s, p, from + 1);
    }
}

/// A text without the blocks between two tags; what stood in them is added to
/// `sink`.
pub fn strip_tag_blocks(input: Vec<char>, open: &str, close: &str, sink: &mut Vec<String>) -> (r:
    Vec<char>)
    requires
        open@.len() > 0 || close@.len() > 0,
    ensures
        (r@, texts(final(sink)@)) == stripped(input@, open@, close@, texts(old(sink)@)),
{
    let o = chars_of(open);
    let c = chars_of(close);
    let mut rest = input;
    let ghost want = stripped(input@, open@, close@, texts(sink@));
    loop
        invariant
            o@ == open@,
            c@ == close@,
            open@.len() > 0 || close@.len() > 0,
            want == stripped(input@, open@, close@, texts(old(sink)@)),
            want == stripped(rest@, open@, close@, texts(sink@)),
        decreases rest.len(),
    {
        proof {
            lemma_first_block(rest@, open@, close@);
            lemma_found_bounds(rest@, open@, 0);
        }
        let start = match find_chars(&rest, &o, 0) {
            Some(i) => i,
            None => {
                return rest;
            },
        };
        let from: usize = start + o.len();
        let end = match find_chars(&rest, &c, from) {
            Some(i) => i,
            None => {
                return rest;
            },
        };
        let inner = trim_chars(&sub_chars(&rest, from, end));
        if inner.len() > 0 {
            let t = text_of(&inner);
            let ghost next = texts(sink@).push(t@);
            sink.push(t);
            assert(texts(sink@) =~= next);
        }
        let n: usize = rest.len();
        let mut kept = sub_chars(&rest, 0, start);
        let mut tail = sub_chars(&rest, end + c.len(), n);
        kept.append(&mut tail);
        assert(kept@ =~= rest@.take(start as int) + rest@.skip(end + close@.len()));
        rest = kept;
    }
}

/// An opening tag stands in the text, and a closing tag behind it.
pub open spec fn has_block(s: Seq<char>, open: Seq<char>, close: Seq<char>) -> bool {
    exists|i: int, j: int| #[trigger]
        occurs_at(s, open, i) && #[trigger] occurs_at(s, close, j) && i + open.len() <= j
}

/// What is found is the first place from there on.
proof fn lemma_found_first(s: Seq<char>, p: Seq<char>, from: int)
    requires
        0 <= from,
    ensures
        match found_from(s, p, from) {
            Some(i) => from <= i && occurs_at(s, p, i) && forall|k: int|
                from <= k < i ==> !#[trigger] occurs_at(s, p, k),
            None => forall|k: int| from <= k ==> !#[trigger] occurs_at(s, p, k),
        },
    decreases s.len() + 1 - from,
{
    if from + p.len() <= s.len() && !occurs_at(s, p, from) {
        lemma_found_first(s, p, from + 1);
    }
}

/// A block is found where there is one.
proof fn lemma_has_block(s: Seq<char>, open: Seq<char>, close: Seq<char>)
    ensures
        first_block(s, open, close) is Some == has_block(s, open, close),
{
    lemma_found_first(s, open, 0);
    match found_from(s, open, 0) {
        Some(start) => {
            lemma_found_first(s, close, start + open.len());
            match found_from(s, close, start + open.len()) {
                Some(end) => {
                    assert(occurs_at(s, open, start) && occurs_at(s, close, end));
                },
                None => {},
            }
        },
        None => {},
    }
}

/// When the blocks between two tags are gone, none is left: where both tags
/// still occur, the closing one stands before the opening one has ended. What
/// was found before stays in front; each text that is added is not empty and
/// has no white space around it. A text without a block stays as it is.
pub proof fn law_stripped(
    s: Seq<char>,
    open: Seq<char>,
    close: Seq<char>,
    found: Seq<Seq<char>>,
)
    requires
        open.len() > 0 || close.len() > 0,
    ensures
        ({
            let (r, all) = stripped(s, open, close, found);
            &&& !has_block(r, open, close)
            &&& found.is_prefix_of(all)
            &&& forall|i: int|
                found.len() <= i < all.len() ==> (#[trigger] all[i]).len() > 0 && trimmed(all[i])
                    == all[i]
            &&& !has_block(s, open, close) ==> r == s && all == found
        }),
    decreases s.len(),
{
    lemma_has_block(s, open, close);
    lemma_first_block(s, open, close);
    let (r, all) = stripped(s, open, close, found);
    match first_block(s, open, close) {
        Some((start, end)) => {
            let inner = trimmed(s.subrange(start + open.len(), end));
            law_trimmed_stays(s.subrange(start + open.len(), end));
            let next = if inner.len() == 0 {
                found
            } else {
                found.push(inner)
            };
            let rest = s.take(start) + s.skip(end + close.len());
            law_stripped(rest, open, close, next);
            assert((r, all) == stripped(rest, open, close, next));
            assert(all.subrange(0, next.len() as int) == next);
            assert(all.subrange(0, found.len() as int) =~= found) by {
                assert forall|i: int| 0 <= i < found.len() implies all[i] == found[i] by {
                    assert(all.subrange(0, next.len() as int)[i] == next[i]);
                }
            }
            assert forall|i: int| found.len() <= i < all.len() implies (#[trigger] all[i]).len() > 0
                && trimmed(all[i]) == all[i] by {
                if i < next.len() {
                    assert(all.subrange(0, next.len() as int)[i] == next[i]);
                }
            }
        },
        None => {
            assert(found.subrange(0, found.len() as int) =~= found);
        },
    }
}

/// A content without the reasoning between tags, and that reasoning.
pub open spec fn without_reasoning(content: Seq<char>) -> (Seq<char>, Seq<char>) {
    let a = stripped(content, "<thinking>"@, "</thinking>"@, Seq::empty());
    let b = stripped(a.0, "<think>"@, "</think>"@, a.1);
    (trimmed(b.0), joined(b.1, "\n\n"@))
}

/// A content without the reasoning between tags, and that reasoning.
pub fn split_inline_reasoning(content: &str) -> (r: (String, String))
    ensures
        (r.0@, r.1@) == without_reasoning(content@),
{
    proof {
        reveal_strlit("<thinking>");
        reveal_strlit("<think>");
    }
    let mut parts: Vec<String> = Vec::new();
    assert(texts(parts@) =~= Seq::empty());
    let a = strip_tag_blocks(chars_of(content), "<thinking>", "</thinking>", &mut parts);
    let b = strip_tag_blocks(a, "<think>", "</think>", &mut parts);
    (text_of(&trim_chars(&b)), join(&parts, "\n\n"))
}

// ---------------------------------------------------------------------------
// Whole replies
// ---------------------------------------------------------------------------

/// A reply.
#[verifier::ext_equal]
#[derive(Debug)]
pub struct Completion<S = String> {
    pub content: S,
    pub reasoning: S,
    pub usage: TokenUsage,
}

impl View for Completion<String> {
    type V = Completion<Seq<char>>;

    open spec fn view(&self) -> Completion<Seq<char>> {
        Completion { content: self.content@, reasoning: self.reasoning@, usage: self.usage }
    }
}

/// A reply with the reasoning between tags taken out of its content.
pub open spec fn tidied(content: Seq<char>, reasoning: Seq<char>, usage: TokenUsage) -> Completion<
    Seq<char>,
> {
    let (clean, inline) = without_reasoning(content);
    Completion {
        content: clean,
        reasoning: if inline.len() == 0 {
            reasoning
        } else if is_blank(reasoning) {
            inline
        } else {
            reasoning + "\n\n"@ + inline
        },
        usage,
    }
}

/// A reply with the reasoning between tags taken out of its content.
pub fn tidy(content: &str, reasoning: String, usage: TokenUsage) -> (r: Completion)
    ensures
        r@ == tidied(content@, reasoning@, usage),
{
    let (clean, inline) = split_inline_reasoning(content);
    let mut all = reasoning;
    if !inline.as_str().is_empty() {
        if blank(&all) {
            all = inline;
        } else {
            all.append("\n\n");
            all.append(&inline);
        }
    }
    Completion { content: clean, reasoning: all, usage }
}

/// The first choice of a reply.
pub open spec fn first_choice(j: JsonTree) -> Option<JsonTree> {
    match items_of_tree(member(j, "choices"@)) {
        Some(items) => if items.len() == 0 {
            None
        } else {
            Some(items[0])
        },
        None => None,
    }
}

/// The first choice of a reply.
pub fn find_choice<'a>(j: &'a Json) -> (r: Option<&'a Json>)
    ensures
        opt_tree(r) == first_choice(j@),
{
    match as_items(get(j, "choices")) {
        Some(items) => if items.len() == 0 {
            None
        } else {
            Some(&items[0])
        },
        None => None,
    }
}

/// A text, or the empty one.
pub open spec fn text_or_empty(s: Option<Seq<char>>) -> Seq<char> {
    match s {
        Some(t) => t,
        None => Seq::empty(),
    }
}

/// The message of a choice; none where it is null.
pub open spec fn message_in(choice: Option<JsonTree>) -> Option<JsonTree> {
    match member_of(choice, "message"@) {
        Some(JsonTree::Null) => None,
        m => m,
    }
}

/// What a reply in one piece says.
pub open spec fn completion_of(j: JsonTree) -> Completion<Seq<char>> {
    let choice = first_choice(j);
    let message = message_in(choice);
    let reasoning = text_or_empty(
        text_of_tree(
            or_tree(
                or_tree(
                    member_of(message, "reasoning_content"@),
                    member_of(message, "reasoning"@),
                ),
                member_of(choice, "reasoning_content"@),
            ),
        ),
    );
    let content = match message {
        Some(m) => content_text(member(m, "content"@)),
        None => text_or_empty(text_of_tree(member_of(choice, "text"@))),
    };
    tidied(
        content,
        reasoning,
        match member(j, "usage"@) {
            Some(u) => usage_of(u),
            None => TokenUsage::zero(),
        },
    )
}

/// What comes of a reply in one piece, given its text and the value that it is.
pub open spec fn reply_of(body: Seq<char>, j: Option<JsonTree>) -> Result<
    Completion<Seq<char>>,
    Seq<char>,
> {
    match j {
        None => Err("parse non-stream response failed: "@ + body),
        Some(v) => match reported_error(j) {
            Some(m) => Err("model api error: "@ + m),
            None => Ok(completion_of(v)),
        },
    }
}

/// The view of a reply that may have failed.
pub open spec fn reply_view(r: Result<Completion, String>) -> Result<
    Completion<Seq<char>>,
    Seq<char>,
> {
    match r {
        Ok(c) => Ok(c@),
        Err(e) => Err(e@),
    }
}

/// The message of a choice; none where it is null.
fn find_message<'a>(choice: Option<&'a Json>) -> (r: Option<&'a Json>)
    ensures
        opt_tree(r) == message_in(opt_tree(choice)),
{
    match get_in(choice, "message") {
        Some(m) => match m {
            Json::Null => None,
            _ => Some(m),
        },
        None => None,
    }
}

/// What a reply in one piece says.
pub fn read_completion(j: &Json) -> (r: Completion)
    ensures
        r@ == completion_of(j@),
{
    let usage = match get(j, "usage") {
        Some(u) => parse_token_usage(u),
        None => TokenUsage::default(),
    };
    let choice = find_choice(j);
    let message = find_message(choice);
    let reasoning = match as_text(
        or(
            or(get_in(message, "reasoning_content"), get_in(message, "reasoning")),
            get_in(choice, "reasoning_content"),
        ),
    ) {
        Some(t) => t.to_owned(),
        None => String::new(),
    };
    let content = match message {
        Some(m) => read_content_text(get(m, "content")),
        None => match as_text(get_in(choice, "text")) {
            Some(t) => t.to_owned(),
            None => String::new(),
        },
    };
    tidy(&content, reasoning, usage)
}

/// What comes of a reply in one piece, given its text and the value that it is.
pub fn read_reply(body: &str, j: Option<&Json>) -> (r: Result<Completion, String>)
    ensures
        reply_view(r) == reply_of(body@, opt_tree(j)),
{
    match j {
        None => {
            let mut e = "parse non-stream response failed: ".to_owned();
            e.append(body);
            Err(e)
        },
        Some(v) => match find_error(j) {
            Some(m) => {
                let mut e = "model api error: ".to_owned();
                e.append(m);
                Err(e)
            },
            None => Ok(read_completion(v)),
        },
    }
}

/// What comes of a reply in one piece.
pub fn parse_non_stream_completion(body_text: &str) -> (r: Result<Completion, String>)
    ensures
        reply_view(r) == reply_of(body_text@, json_of(body_text@)),
{
    match parse(body_text) {
        Some(j) => read_reply(body_text, Some(&j)),
        None => read_reply(body_text, None),
    }
}

} // verus!
