use aipartner::settings::{
    cfg_key, clamp, default_base_url_for_provider, default_models, natural_or_default,
    normalize_memory_scope, normalize_provider, normalize_reasoning_effort, normalize_theme_mode,
    normalize_thinking_override, positive_or_default, provider_default_base_url,
    provider_requires_api_key, resolve_base_url, should_replay_reasoning_content,
    supports_deepseek_thinking_params,
};

#[test]
fn providers_are_lowered_and_trimmed() {
    assert_eq!(normalize_provider("  OpenAI "), "openai");
    assert_eq!(normalize_provider("  "), "deepseek");
    assert_eq!(normalize_provider("ÉCOLE"), "école");
    assert_eq!(cfg_key(" OpenRouter"), "api_key_openrouter");
}

#[test]
fn default_model_list() {
    assert_eq!(
        default_models(),
        vec![
            "deepseek-chat",
            "deepseek-reasoner",
            "deepseek-v4-flash",
            "deepseek-v4-pro",
            "gpt-4.1",
            "gpt-4.1-mini"
        ]
    );
}

#[test]
fn addresses_of_providers() {
    assert_eq!(default_base_url_for_provider("openai"), "https://api.openai.com/v1");
    assert_eq!(default_base_url_for_provider("custom"), "");
    assert_eq!(default_base_url_for_provider("other"), "https://api.deepseek.com");
    assert_eq!(provider_default_base_url("ollama"), Some("http://127.0.0.1:11434/v1"));
    assert_eq!(provider_default_base_url("custom"), None);
    assert_eq!(resolve_base_url("openai", " http://x "), Some("http://x".to_string()));
    assert_eq!(resolve_base_url("openrouter", " "), Some("https://openrouter.ai/api/v1".to_string()));
    assert_eq!(resolve_base_url("custom", ""), None);
}

#[test]
fn who_needs_a_key() {
    for p in ["deepseek", "openai", "openrouter"] {
        assert!(provider_requires_api_key(p));
    }
    for p in ["ollama", "custom", ""] {
        assert!(!provider_requires_api_key(p));
    }
}

#[test]
fn words_for_thinking_effort_theme_and_scope() {
    assert_eq!(normalize_thinking_override(" Enabled "), "enabled");
    assert_eq!(normalize_thinking_override("disabled"), "disabled");
    assert_eq!(normalize_thinking_override("maybe"), "");
    assert_eq!(normalize_reasoning_effort("MAX"), "max");
    assert_eq!(normalize_reasoning_effort("high"), "high");
    assert_eq!(normalize_reasoning_effort("low"), "");
    assert_eq!(normalize_theme_mode(" Dark"), "dark");
    assert_eq!(normalize_theme_mode("light"), "light");
    assert_eq!(normalize_theme_mode("blue"), "system");
    assert_eq!(normalize_memory_scope(" Conversation "), "conversation");
    assert_eq!(normalize_memory_scope("chat"), "global");
    assert!(supports_deepseek_thinking_params(" DeepSeek-V4-Pro "));
    assert!(supports_deepseek_thinking_params("deepseek-v4-flash"));
    assert!(!supports_deepseek_thinking_params("deepseek-chat"));
    assert!(!should_replay_reasoning_content("deepseek", "deepseek-chat", "disabled"));
    assert!(!should_replay_reasoning_content("deepseek", "deepseek-reasoner", "enabled"));
    assert!(!should_replay_reasoning_content("openai", "gpt-4.1", ""));
}

#[test]
fn numbers_within_bounds() {
    assert_eq!(clamp(5, 1, 10), 5);
    assert_eq!(clamp(-5, 1, 10), 1);
    assert_eq!(clamp(50, 1, 10), 10);
    assert_eq!(positive_or_default(0, 20), 20);
    assert_eq!(positive_or_default(3, 20), 3);
    assert_eq!(natural_or_default(0, 8), 0);
    assert_eq!(natural_or_default(-1, 8), 8);
}
