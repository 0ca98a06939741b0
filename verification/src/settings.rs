//! Providers, addresses and the values that settings may take.
use vstd::prelude::*;
use crate::text::{
    eq_ignore_ascii_case, is_blank, lowercase, same_ignoring_ascii_case, text_eq, trim, trimmed,
};

verus! {

/// The largest text file that may be attached, in bytes.
pub const MAX_TXT_FILE_BYTES: i64 = 1_048_576;

/// The provider that a trimmed, lowered name stands for.
pub open spec fn provider_of(lowered: Seq<char>) -> Seq<char> {
    if lowered.len() == 0 {
        "deepseek"@
    } else {
        lowered
    }
}

/// The provider that a name stands for: without white space around it and in
/// lower case; `deepseek` where it is blank.
pub open spec fn provider_name(input: Seq<char>) -> Seq<char> {
    provider_of(lowercase(trimmed(input)))
}

/// The provider that a trimmed, lowered name stands for.
pub fn provider_from_lowered(lowered: &str) -> (r: String)
    ensures
        r@ == provider_of(lowered@),
{
    if lowered.is_empty() {
        "deepseek".to_owned()
    } else {
        lowered.to_owned()
    }
}

/// The provider that a name stands for.
pub fn normalize_provider(input: &str) -> (r: String)
    ensures
        r@ == provider_name(input@),
{
    let p = trim(input).to_lowercase();
    provider_from_lowered(&p)
}

/// The models offered before the user names any.
pub open spec fn default_model_names() -> Seq<Seq<char>> {
    seq![
        "deepseek-chat"@,
        "deepseek-reasoner"@,
        "deepseek-v4-flash"@,
        "deepseek-v4-pro"@,
        "gpt-4.1"@,
        "gpt-4.1-mini"@,
    ]
}

/// The models offered before the user names any.
pub fn default_models() -> (r: Vec<String>)
    ensures
        crate::text::texts(r@) == default_model_names(),
{
    let r = vec![
        "deepseek-chat".to_owned(),
        "deepseek-reasoner".to_owned(),
        "deepseek-v4-flash".to_owned(),
        "deepseek-v4-pro".to_owned(),
        "gpt-4.1".to_owned(),
        "gpt-4.1-mini".to_owned(),
    ];
    assert(crate::text::texts(r@) =~= default_model_names());
    r
}

/// The address stored for a provider when the user gives none.
pub open spec fn stored_base_url(provider: Seq<char>) -> Seq<char> {
    if provider == "openai"@ {
        "https://api.openai.com/v1"@
    } else if provider == "openrouter"@ {
        "https://openrouter.ai/api/v1"@
    } else if provider == "ollama"@ {
        "http://127.0.0.1:11434/v1"@
    } else if provider == "custom"@ {
        ""@
    } else {
        "https://api.deepseek.com"@
    }
}

/// The address stored for a provider when the user gives none.
pub fn default_base_url_for_provider(provider: &str) -> (r: &'static str)
    ensures
        r@ == stored_base_url(provider@),
{
    if text_eq(provider, "openai") {
        "https://api.openai.com/v1"
    } else if text_eq(provider, "openrouter") {
        "https://openrouter.ai/api/v1"
    } else if text_eq(provider, "ollama") {
        "http://127.0.0.1:11434/v1"
    } else if text_eq(provider, "custom") {
        ""
    } else {
        "https://api.deepseek.com"
    }
}

/// The address that a known provider answers at.
pub open spec fn known_base_url(provider: Seq<char>) -> Option<Seq<char>> {
    if provider == "deepseek"@ {
        Some("https://api.deepseek.com"@)
    } else if provider == "openai"@ {
        Some("https://api.openai.com/v1"@)
    } else if provider == "openrouter"@ {
        Some("https://openrouter.ai/api/v1"@)
    } else if provider == "ollama"@ {
        Some("http://127.0.0.1:11434/v1"@)
    } else {
        None
    }
}

/// The address that a known provider answers at.
pub fn provider_default_base_url(provider: &str) -> (r: Option<&'static str>)
    ensures
        crate::text::opt_str(r) == known_base_url(provider@),
{
    if text_eq(provider, "deepseek") {
        Some("https://api.deepseek.com")
    } else if text_eq(provider, "openai") {
        Some("https://api.openai.com/v1")
    } else if text_eq(provider, "openrouter") {
        Some("https://openrouter.ai/api/v1")
    } else if text_eq(provider, "ollama") {
        Some("http://127.0.0.1:11434/v1")
    } else {
        None
    }
}

/// The configured address, or the provider's own where none is configured.
pub open spec fn base_url_of(provider: Seq<char>, configured: Seq<char>) -> Option<Seq<char>> {
    if !is_blank(configured) {
        Some(trimmed(configured))
    } else {
        known_base_url(provider)
    }
}

/// The configured address, or the provider's own where none is configured.
pub fn resolve_base_url(provider: &str, configured: &str) -> (r: Option<String>)
    ensures
        crate::text::opt_text(r) == base_url_of(provider@, configured@),
{
    let t = trim(configured);
    if !t.as_str().is_empty() {
        return Some(t);
    }
    match provider_default_base_url(provider) {
        Some(u) => Some(u.to_owned()),
        None => None,
    }
}

/// Whether a provider is of no use without a key.
pub open spec fn needs_api_key(provider: Seq<char>) -> bool {
    provider == "deepseek"@ || provider == "openai"@ || provider == "openrouter"@
}

/// Whether a provider is of no use without a key.
pub fn provider_requires_api_key(provider: &str) -> (r: bool)
    ensures
        r == needs_api_key(provider@),
{
    text_eq(provider, "deepseek") || text_eq(provider, "openai") || text_eq(provider, "openrouter")
}

/// The setting that holds the key of a provider with this trimmed, lowered name.
pub open spec fn api_key_setting_of(lowered: Seq<char>) -> Seq<char> {
    "api_key_"@ + lowered
}

/// The setting that holds the key of a provider.
pub open spec fn api_key_setting(provider: Seq<char>) -> Seq<char> {
    api_key_setting_of(lowercase(trimmed(provider)))
}

/// The setting that holds the key of a provider with this trimmed, lowered name.
pub fn cfg_key_from_lowered(lowered: &str) -> (r: String)
    ensures
        r@ == api_key_setting_of(lowered@),
{
    let mut r = "api_key_".to_owned();
    r.append(lowered);
    r
}

/// The setting that holds the key of a provider.
pub fn cfg_key(provider: &str) -> (r: String)
    ensures
        r@ == api_key_setting(provider@),
{
    cfg_key_from_lowered(&trim(provider).to_lowercase())
}

/// The thinking mode that a trimmed, lowered text names; empty for any other.
pub open spec fn thinking_of(lowered: Seq<char>) -> Seq<char> {
    if lowered == "enabled"@ || lowered == "disabled"@ {
        lowered
    } else {
        Seq::empty()
    }
}

/// The thinking mode that a text names; empty for any other.
pub open spec fn thinking_name(input: Seq<char>) -> Seq<char> {
    thinking_of(lowercase(trimmed(input)))
}

/// The thinking mode that a trimmed, lowered text names.
pub fn thinking_from_lowered(lowered: &str) -> (r: String)
    ensures
        r@ == thinking_of(lowered@),
{
    if text_eq(lowered, "enabled") || text_eq(lowered, "disabled") {
        lowered.to_owned()
    } else {
        String::new()
    }
}

/// The thinking mode that a text names; empty for any other.
pub fn normalize_thinking_override(input: &str) -> (r: String)
    ensures
        r@ == thinking_name(input@),
{
    thinking_from_lowered(&trim(input).to_lowercase())
}

/// The reasoning effort that a trimmed, lowered text names; empty for any other.
pub open spec fn effort_of(lowered: Seq<char>) -> Seq<char> {
    if lowered == "max"@ || lowered == "high"@ {
        lowered
    } else {
        Seq::empty()
    }
}

/// The reasoning effort that a text names; empty for any other.
pub open spec fn effort_name(input: Seq<char>) -> Seq<char> {
    effort_of(lowercase(trimmed(input)))
}

/// The reasoning effort that a trimmed, lowered text names.
pub fn effort_from_lowered(lowered: &str) -> (r: String)
    ensures
        r@ == effort_of(lowered@),
{
    if text_eq(lowered, "max") || text_eq(lowered, "high") {
        lowered.to_owned()
    } else {
        String::new()
    }
}

/// The reasoning effort that a text names; empty for any other.
pub fn normalize_reasoning_effort(input: &str) -> (r: String)
    ensures
        r@ == effort_name(input@),
{
    effort_from_lowered(&trim(input).to_lowercase())
}

/// Whether earlier reasoning is sent back to the model. It never is: rounds of
/// tool calls, the only ones that need it, are not supported.
pub fn should_replay_reasoning_content(provider: &str, model: &str, thinking_type: &str) -> (r: bool)
    ensures
        !r,
{
    false
}

/// Whether a model with this trimmed, lowered name takes the thinking parameters.
pub open spec fn takes_thinking_of(lowered: Seq<char>) -> bool {
    lowered == "deepseek-v4-pro"@ || lowered == "deepseek-v4-flash"@
}

/// Whether a model takes the thinking parameters.
pub open spec fn takes_thinking(model: Seq<char>) -> bool {
    takes_thinking_of(lowercase(trimmed(model)))
}

/// Whether a model with this trimmed, lowered name takes the thinking parameters.
pub fn thinking_params_from_lowered(lowered: &str) -> (r: bool)
    ensures
        r == takes_thinking_of(lowered@),
{
    text_eq(lowered, "deepseek-v4-pro") || text_eq(lowered, "deepseek-v4-flash")
}

/// Whether a model takes the thinking parameters.
pub fn supports_deepseek_thinking_params(model: &str) -> (r: bool)
    ensures
        r == takes_thinking(model@),
{
    thinking_params_from_lowered(&trim(model).to_lowercase())
}

/// The theme that a trimmed, lowered text names; the system's for any other.
pub open spec fn theme_of(lowered: Seq<char>) -> Seq<char> {
    if lowered == "light"@ || lowered == "dark"@ {
        lowered
    } else {
        "system"@
    }
}

/// The theme that a text names; the system's for any other.
pub open spec fn theme_name(input: Seq<char>) -> Seq<char> {
    theme_of(lowercase(trimmed(input)))
}

/// The theme that a trimmed, lowered text names; the system's for any other.
pub fn theme_from_lowered(lowered: &str) -> (r: &'static str)
    ensures
        r@ == theme_of(lowered@),
{
    if text_eq(lowered, "light") {
        "light"
    } else if text_eq(lowered, "dark") {
        "dark"
    } else {
        "system"
    }
}

/// The theme that a text names; the system's for any other.
pub fn normalize_theme_mode(input: &str) -> (r: &'static str)
    ensures
        r@ == theme_name(input@),
{
    theme_from_lowered(&trim(input).to_lowercase())
}

/// The scope that a text names: a conversation's where it says so, else global.
pub open spec fn scope_name(input: Seq<char>) -> Seq<char> {
    if same_ignoring_ascii_case(trimmed(input), "conversation"@) {
        "conversation"@
    } else {
        "global"@
    }
}

/// The scope that a text names: a conversation's where it says so, else global.
pub fn normalize_memory_scope(input: &str) -> (r: &'static str)
    ensures
        r@ == scope_name(input@),
{
    if eq_ignore_ascii_case(&trim(input), "conversation") {
        "conversation"
    } else {
        "global"
    }
}

/// `v` moved into the range from `lo` to `hi`.
pub open spec fn clamped(v: int, lo: int, hi: int) -> int {
    if v < lo {
        lo
    } else if v > hi {
        hi
    } else {
        v
    }
}

/// `v` moved into the range from `lo` to `hi`.
pub fn clamp(v: i64, lo: i64, hi: i64) -> (r: i64)
    requires
        lo <= hi,
    ensures
        r == clamped(v as int, lo as int, hi as int),
{
    if v < lo {
        lo
    } else if v > hi {
        hi
    } else {
        v
    }
}

/// `v` where it is positive, else `fallback`.
pub open spec fn positive_or(v: int, fallback: int) -> int {
    if v <= 0 {
        fallback
    } else {
        v
    }
}

/// `v` where it is positive, else `fallback`.
pub fn positive_or_default(v: i64, fallback: i64) -> (r: i64)
    ensures
        r == positive_or(v as int, fallback as int),
{
    if v <= 0 {
        fallback
    } else {
        v
    }
}

/// `v` where it is not negative, else `fallback`.
pub open spec fn natural_or(v: int, fallback: int) -> int {
    if v < 0 {
        fallback
    } else {
        v
    }
}

/// `v` where it is not negative, else `fallback`.
pub fn natural_or_default(v: i64, fallback: i64) -> (r: i64)
    ensures
        r == natural_or(v as int, fallback as int),
{
    if v < 0 {
        fallback
    } else {
        v
    }
}

} // verus!
