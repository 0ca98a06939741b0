use aipartner::api::normalize_base_url;
use aipartner::api::reply::{
    extract_delta_content, extract_reasoning, parse_api_error_text, parse_non_stream_completion,
    parse_token_usage, split_inline_reasoning, strip_tag_blocks,
};
use aipartner::api::request::{accept, make_request, refuse, Attempt, Next};
use aipartner::api::stream::{pieces_of_whole, text_of_bytes, Piece, Progress};
use aipartner::json::{parse, Json};
use aipartner::models::{ApiMessage, ApiRuntimeConfig, TokenUsage};

fn config() -> ApiRuntimeConfig {
    ApiRuntimeConfig {
        api_key: " key ".to_string(),
        base_url: "http://x/v1/".to_string(),
        model: "m".to_string(),
        temperature: 0.5f32.to_bits(),
        max_tokens: 300,
        include_temperature: true,
        deepseek_thinking_type: None,
        deepseek_reasoning_effort: None,
    }
}

fn keys(j: &Json) -> Vec<String> {
    match j {
        Json::Object(v) => v.iter().map(|(k, _)| k.clone()).collect(),
        _ => panic!("no object"),
    }
}

fn shown(pieces: &[Piece]) -> Vec<String> {
    pieces
        .iter()
        .map(|p| match p {
            Piece::Reasoning(s) => format!("r:{s}"),
            Piece::Content(s) => format!("c:{s}"),
        })
        .collect()
}

#[test]
fn blank_address_is_the_default_one() {
    assert_eq!(normalize_base_url("  "), "https://api.deepseek.com/v1/chat/completions");
    assert_eq!(normalize_base_url(" / "), "https://api.deepseek.com/v1/chat/completions");
}

#[test]
fn addresses_are_completed() {
    assert_eq!(normalize_base_url("http://x"), "http://x/v1/chat/completions");
    assert_eq!(normalize_base_url(" http://x/v1// "), "http://x/v1/chat/completions");
    assert_eq!(normalize_base_url("http://x/chat/completions/"), "http://x/chat/completions");
}

#[test]
fn json_values_are_read() {
    match parse("{\"b\":[1,2.5,null,true,\"x\"],\"a\":{}}") {
        Some(Json::Object(v)) => {
            assert_eq!(v[0].0, "a");
            assert_eq!(v[1].0, "b");
            match &v[1].1 {
                Json::Array(items) => {
                    assert!(matches!(items[0], Json::Number(Some(1))));
                    assert!(matches!(items[1], Json::Number(None)));
                    assert!(matches!(items[2], Json::Null));
                    assert!(matches!(items[3], Json::Bool(true)));
                    assert!(matches!(&items[4], Json::Text(s) if s == "x"));
                }
                _ => panic!("no list"),
            }
        }
        _ => panic!("no object"),
    }
    assert!(parse("{").is_none());
}

#[test]
fn errors_are_described() {
    assert_eq!(parse_api_error_text("  "), "empty response body");
    assert_eq!(parse_api_error_text("{\"error\":{\"message\":\"no key\"}}"), "no key");
    assert_eq!(parse_api_error_text("{\"error\":{\"msg\":\"bad\"},\"message\":\"m\"}"), "bad");
    assert_eq!(parse_api_error_text("{\"error\":{\"message\":1,\"msg\":\"bad\"},\"message\":\"m\"}"), "m");
    assert_eq!(parse_api_error_text(" {\"x\":1} "), "{\"x\":1}");
    assert_eq!(parse_api_error_text("oops"), "oops");
}

#[test]
fn tokens_are_counted() {
    let j = parse("{\"prompt_tokens\":3,\"completion_tokens\":4.5,\"total_tokens\":9}").unwrap();
    assert_eq!(parse_token_usage(&j), TokenUsage { prompt: 3, completion: 0, total: 9 });
}

#[test]
fn parts_of_replies() {
    let r = |s: &str| extract_reasoning(&parse(s).unwrap());
    assert_eq!(r("{\"reasoning_content\":\"a\",\"reasoning\":\"b\"}"), Some("a".to_string()));
    assert_eq!(r("{\"reasoning\":\"b\"}"), Some("b".to_string()));
    assert_eq!(r("{\"reasoning_content\":null,\"reasoning\":\"b\"}"), None);
    assert_eq!(r("{\"reasoning_content\":\"\"}"), None);
    let c = |s: &str| extract_delta_content(&parse(s).unwrap());
    assert_eq!(c("{\"content\":\"a\",\"text\":\"b\"}"), Some("a".to_string()));
    assert_eq!(
        c("{\"content\":[{\"text\":\"a\"},{\"content\":{\"text\":\"b\"}},{\"x\":1},3]}"),
        Some("ab".to_string())
    );
    assert_eq!(c("{\"content\":\"\",\"text\":\"b\"}"), Some("b".to_string()));
    assert_eq!(c("{\"content\":null}"), None);
}

#[test]
fn reasoning_between_tags_is_taken_out() {
    let split = |s: &str| split_inline_reasoning(s);
    assert_eq!(split(" plain "), ("plain".to_string(), String::new()));
    assert_eq!(
        split("<think> one </think>Hello<thinking>two</thinking> you<think> </think>"),
        ("Hello you".to_string(), "two\n\none".to_string())
    );
    assert_eq!(split("<think>open"), ("<think>open".to_string(), String::new()));
    assert_eq!(split("</think>x<think>y</think>"), ("</think>x".to_string(), "y".to_string()));
    assert_eq!(split("<th<think>a</think>ink>b</think>c"), ("c".to_string(), "a\n\nb".to_string()));
}

#[test]
fn whole_replies_are_read() {
    let body = "{\"usage\":{\"prompt_tokens\":1,\"completion_tokens\":2,\"total_tokens\":3},\
        \"choices\":[{\"message\":{\"content\":\"<think>b</think>Hi\",\"reasoning_content\":\"a\"}}]}";
    let r = parse_non_stream_completion(body).unwrap();
    assert_eq!((r.content.as_str(), r.reasoning.as_str()), ("Hi", "a\n\nb"));
    assert_eq!(r.usage, TokenUsage { prompt: 1, completion: 2, total: 3 });
    let r = parse_non_stream_completion("{\"choices\":[{\"text\":\" x \",\"reasoning_content\":\"w\"}]}").unwrap();
    assert_eq!((r.content.as_str(), r.reasoning.as_str()), ("x", "w"));
    let r = parse_non_stream_completion("{}").unwrap();
    assert_eq!((r.content.as_str(), r.reasoning.as_str()), ("", ""));
    assert_eq!(
        parse_non_stream_completion("{\"error\":{\"message\":\"no\"}}").err(),
        Some("model api error: no".to_string())
    );
    assert_eq!(
        parse_non_stream_completion("<html>").err(),
        Some("parse non-stream response failed: <html>".to_string())
    );
}

#[test]
fn requests_hold_what_is_set() {
    let messages = vec![
        ApiMessage { role: "system".to_string(), content: "s".to_string(), reasoning_content: None },
        ApiMessage { role: "user".to_string(), content: "u".to_string(), reasoning_content: Some("r".to_string()) },
    ];
    let r = make_request(Attempt::Counted, &config(), &messages);
    assert_eq!(r.endpoint, "http://x/v1/chat/completions");
    assert_eq!(r.bearer, Some(" key ".to_string()));
    assert_eq!(keys(&r.body), vec!["model", "messages", "max_tokens", "stream", "temperature", "stream_options"]);
    if let Json::Object(v) = &r.body {
        assert!(matches!(&v[0].1, Json::Text(s) if s == "m"));
        assert!(matches!(v[2].1, Json::Number(Some(300))));
        assert!(matches!(v[3].1, Json::Bool(true)));
        assert!(matches!(v[4].1, Json::Real(bits) if f32::from_bits(bits) == 0.5));
        match &v[1].1 {
            Json::Array(items) => {
                assert_eq!(keys(&items[0]), vec!["role", "content"]);
                assert_eq!(keys(&items[1]), vec!["role", "content", "reasoning_content"]);
            }
            _ => panic!("no list"),
        }
    }
    let mut c = config();
    c.api_key = " ".to_string();
    c.include_temperature = false;
    c.deepseek_thinking_type = Some("enabled".to_string());
    c.deepseek_reasoning_effort = Some("max".to_string());
    let r = make_request(Attempt::Whole, &c, &messages);
    assert_eq!(r.bearer, None);
    assert_eq!(keys(&r.body), vec!["model", "messages", "max_tokens", "stream", "thinking", "reasoning_effort"]);
    if let Json::Object(v) = &r.body {
        assert!(matches!(v[3].1, Json::Bool(false)));
        assert_eq!(keys(&v[4].1), vec!["type"]);
    }
    let r = make_request(Attempt::Uncounted, &config(), &messages);
    assert_eq!(keys(&r.body), vec!["model", "messages", "max_tokens", "stream", "temperature"]);
}

#[test]
fn answers_decide_what_is_next() {
    assert!(matches!(accept(Attempt::Counted, "Text/Event-Stream; charset=utf-8"), Next::ReadStream));
    assert!(matches!(accept(Attempt::Uncounted, "application/json"), Next::ReadWhole));
    assert!(matches!(accept(Attempt::Whole, "text/event-stream"), Next::ReadWhole));
    assert!(matches!(refuse(Attempt::Counted, "400", "unknown stream_options"), Next::Ask(Attempt::Uncounted)));
    assert!(matches!(refuse(Attempt::Counted, "400", "UNSUPPORTED"), Next::Ask(Attempt::Uncounted)));
    assert!(matches!(refuse(Attempt::Counted, "400", "no Streaming"), Next::Ask(Attempt::Whole)));
    assert!(matches!(refuse(Attempt::Uncounted, "400", "anything"), Next::Ask(Attempt::Whole)));
    match refuse(Attempt::Counted, "401 Unauthorized", "{\"message\":\"no key\"}") {
        Next::Fail(e) => assert_eq!(e, "model api error [401 Unauthorized]: no key"),
        _ => panic!("no failure"),
    }
    match refuse(Attempt::Whole, "500", "stream unsupported") {
        Next::Fail(e) => assert_eq!(e, "model api error [500]: stream unsupported"),
        _ => panic!("no failure"),
    }
}

const STREAM: &str = "data: {\"choices\":[{\"delta\":{\"reasoning_content\":\"hm\",\"content\":\"He\"}}]}\n\n: note\r\n\
    data:data: {\"choices\":[{\"delta\":{\"content\":\"llo\"}}]}\ndata: nonsense\n\
    data: {\"usage\":{\"total_tokens\":7}}\ndata: [DONE]\ndata: {\"choices\":[{\"delta\":{\"content\":\"late\"}}]}\n";

#[test]
fn streams_are_read() {
    let mut p = Progress::new();
    let (pieces, error) = p.take_text(STREAM);
    assert_eq!(shown(&pieces), vec!["r:hm", "c:He", "c:llo"]);
    assert_eq!(error, None);
    assert!(p.done);
    let r = p.finish();
    assert_eq!((r.content.as_str(), r.reasoning.as_str()), ("Hello", "hm"));
    assert_eq!(r.usage, TokenUsage { prompt: 0, completion: 0, total: 7 });
}

#[test]
fn parts_of_a_stream_do_not_matter() {
    let end = STREAM.find("[DONE]").unwrap();
    for cut in 0..end {
        let mut p = Progress::new();
        let (a, _) = p.take_part(false, STREAM[..cut].as_bytes());
        let (b, _) = p.take_part(false, STREAM[cut..].as_bytes());
        let all: Vec<String> = shown(&a).into_iter().chain(shown(&b)).collect();
        assert_eq!(all, vec!["r:hm", "c:He", "c:llo"]);
        assert_eq!(p.finish().content, "Hello");
    }
}

#[test]
fn streams_fail_and_stop() {
    let mut p = Progress::new();
    let (pieces, error) = p.take_text(
        "data: {\"choices\":[{\"delta\":{\"content\":\"a\"}}]}\ndata: {\"error\":{\"message\":\"full\"}}\ndata: [DONE]\n",
    );
    assert_eq!(shown(&pieces), vec!["c:a"]);
    assert_eq!(error, Some("model stream error: full".to_string()));
    let mut p = Progress::new();
    p.take_text("data: {\"choices\":[{\"delta\":{\"content\":\"a\"}}]}\n");
    let (pieces, error) = p.take_part(true, b"data: {\"choices\":[{\"delta\":{\"content\":\"b\"}}]}\n");
    assert_eq!(pieces.len(), 0);
    assert_eq!(error, None);
    assert!(p.done);
    assert_eq!(p.finish().content, "a");
}

#[test]
fn whole_replies_are_shown_at_once() {
    let r = parse_non_stream_completion("{\"choices\":[{\"message\":{\"content\":\"Hi\",\"reasoning\":\"a\"}}]}").unwrap();
    assert_eq!(shown(&pieces_of_whole(&r)), vec!["r:a", "c:Hi"]);
    let r = parse_non_stream_completion("{}").unwrap();
    assert_eq!(pieces_of_whole(&r).len(), 0);
}

#[test]
fn bytes_become_text() {
    assert_eq!(text_of_bytes("héllo 你".as_bytes()), "héllo 你");
    assert_eq!(text_of_bytes(&[0x61, 0xff, 0x62]), "a\u{fffd}b");
}

#[test]
fn blocks_between_any_tags() {
    let strip = |input: &str, open: &str, close: &str| -> (String, Vec<String>) {
        let mut sink = vec!["first".to_string()];
        let rest = strip_tag_blocks(input.chars().collect(), open, close, &mut sink);
        (rest.into_iter().collect(), sink)
    };
    assert_eq!(
        strip("a<b> x </b>c<b></b>d<b>e", "<b>", "</b>"),
        ("acd<b>e".to_string(), vec!["first".to_string(), "x".to_string()])
    );
    assert_eq!(
        strip("one;two;three", "", ";"),
        ("three".to_string(), vec!["first".to_string(), "one".to_string(), "two".to_string()])
    );
    assert_eq!(strip("a<b>c", "<b>", ""), ("ac".to_string(), vec!["first".to_string()]));
    assert_eq!(strip("</b>a<b>", "<b>", "</b>"), ("</b>a<b>".to_string(), vec!["first".to_string()]));
}
