//! Talking to a model: requests, replies and streams.
use vstd::prelude::*;
use crate::text::{chars_of, ends, ends_with, sub_chars, text_of, trim, trimmed};

pub mod laws;
pub mod reply;
pub mod request;
pub mod stream;

verus! {

/// `s` without the characters `c` at its end.
pub open spec fn without_trailing(s: Seq<char>, c: char) -> Seq<char>
    decreases s.len(),
{
    if s.len() > 0 && s.last() == c {
        without_trailing(s.drop_last(), c)
    } else {
        s
    }
}

/// The address at which a provider completes chats.
pub open spec fn endpoint_of(base_url: Seq<char>) -> Seq<char> {
    let raw = without_trailing(trimmed(base_url), '/');
    if raw.len() == 0 {
        "https://api.deepseek.com/v1/chat/completions"@
    } else if ends(raw, "/chat/completions"@) {
        raw
    } else if ends(raw, "/v1"@) {
        raw + "/chat/completions"@
    } else {
        raw + "/v1/chat/completions"@
    }
}

/// `s` without the characters `c` at its end.
fn trim_end_char(s: &str, c: char) -> (r: String)
    ensures
        r@ == without_trailing(s@, c),
{
    let v = chars_of(s);
    let mut n: usize = v.len();
    assert(v@.take(n as int) =~= v@);
    while n > 0 && v[n - 1] == c
        invariant
            n <= v.len(),
            without_trailing(v@.take(n as int), c) == without_trailing(v@, c),
        decreases n,
    {
        assert(v@.take(n as int).drop_last() =~= v@.take(n - 1));
        n = n - 1;
    }
    let r = sub_chars(&v, 0, n);
    assert(r@ =~= v@.take(n as int));
    text_of(&r)
}

/// The address at which a provider completes chats.
pub fn normalize_base_url(base_url: &str) -> (r: String)
    ensures
        r@ == endpoint_of(base_url@),
{
    let raw = trim_end_char(&trim(base_url), '/');
    if raw.as_str().is_empty() {
        return "https://api.deepseek.com/v1/chat/completions".to_owned();
    }
    if ends_with(&raw, "/chat/completions") {
        return raw;
    }
    let mut url = raw;
    if ends_with(&url, "/v1") {
        url.append("/chat/completions");
    } else {
        url.append("/v1/chat/completions");
    }
    url
}

} // verus!
