use aipartner::memory::{
    add_unique_line, candidates, detect_language_style, looks_low_value_memory,
    merge_memory_content, normalize_for_match, rate_line, score_text_overlap, should_extract,
    should_store_as_global_memory, split_lines, try_extract_after,
};
use aipartner::profile::{find_name, update_style_profile, update_user_profile};
use aipartner::summary::{build_summary, first_sentence, plan_segments, summary_line};
use aipartner::models::{Message, StyleProfile, TokenUsage, UserProfile};

fn message(n: usize, role: &str, content: &str) -> Message {
    Message {
        id: format!("m{n}"),
        conversation_id: "c".to_string(),
        role: role.to_string(),
        content: content.to_string(),
        reasoning_content: String::new(),
        token_usage: TokenUsage { prompt: 0, completion: 0, total: 0 },
        created_at: format!("2024-01-01T00:{:02}:{:02}+00:00", n / 60, n % 60),
        updated_at: String::new(),
        deleted_at: None,
        deleted_reason: String::new(),
    }
}

fn user() -> UserProfile {
    UserProfile {
        preferred_name: String::new(),
        long_term_goals: String::new(),
        interests: String::new(),
        important_experiences: String::new(),
        language_preference: "auto".to_string(),
        notes: String::new(),
        updated_at: "t0".to_string(),
    }
}

fn style() -> StyleProfile {
    StyleProfile {
        detail_level: "balanced".to_string(),
        tone: "warm_direct".to_string(),
        technical_level: "balanced".to_string(),
        language_style: "auto".to_string(),
        explicit_preferences: String::new(),
        updated_at: "t0".to_string(),
    }
}

#[test]
fn noise_is_dropped_and_letters_are_lowered() {
    assert_eq!(normalize_for_match("Hello, World! 你好。"), "helloworld你好");
    assert_eq!(normalize_for_match(" ,.!?;:'\"`"), "");
    assert_eq!(normalize_for_match("A-B\rC"), "a-b\rc");
}

#[test]
fn overlap_scores() {
    assert_eq!(score_text_overlap("abc", "xx ABC xx"), 12);
    assert_eq!(score_text_overlap("xxabcxx", "abc"), 12);
    assert_eq!(score_text_overlap("", "abc"), 0);
    assert_eq!(score_text_overlap("abc", "cab d"), 3);
    assert_eq!(score_text_overlap("aabb", "bxa"), 4);
    assert_eq!(score_text_overlap("abcdefghijklmn", "nmlkjihgfedcba"), 10);
}

#[test]
fn low_value_texts() {
    assert!(looks_low_value_memory(" OK "));
    assert!(looks_low_value_memory("12345678"));
    assert!(!looks_low_value_memory("123456789"));
}

#[test]
fn merging_texts() {
    assert_eq!(merge_memory_content(" a b ", "b"), "a b");
    assert_eq!(merge_memory_content("b", "a b c"), "a b c");
    assert_eq!(merge_memory_content("", " x "), "x");
    assert_eq!(merge_memory_content(" x ", ""), "x");
    assert_eq!(merge_memory_content("likes tea", "likes jazz"), "likes tea；likes jazz");
    let long = "y".repeat(399);
    assert_eq!(merge_memory_content(&long, "zz").chars().count(), 400);
}

#[test]
fn lines_of_ten_characters_are_kept() {
    assert_eq!(
        split_lines("short. this is long enough; 也是一行很长的文字内容啊！x"),
        vec!["this is long enough".to_string(), "也是一行很长的文字内容啊".to_string()]
    );
}

#[test]
fn unique_lines_are_added() {
    assert_eq!(add_unique_line("a\n\n b ", "c  d", 24), "a\nb\nc d");
    assert_eq!(add_unique_line("a\nb", " b ", 24), "a\nb");
    assert_eq!(add_unique_line("a\nb", "c", 2), "b\nc");
    assert_eq!(add_unique_line("a\nb ", "   ", 2), "a\nb ");
}

#[test]
fn language_by_letters() {
    assert_eq!(detect_language_style("你好世界"), "zh");
    assert_eq!(detect_language_style("hello"), "en");
    assert_eq!(detect_language_style("你好 ab"), "mixed");
    assert_eq!(detect_language_style("123"), "mixed");
}

#[test]
fn names_behind_keys() {
    assert_eq!(try_extract_after("请叫我小明，谢谢", "叫我"), Some("小明".to_string()));
    assert_eq!(try_extract_after("call me ", "call me "), None);
    assert_eq!(try_extract_after("call me , bob", "call me "), None);
    assert_eq!(try_extract_after("nothing", "call me "), None);
    assert_eq!(find_name("Please CALL ME Bob!", "please call me bob!"), Some("bob".to_string()));
    assert_eq!(find_name("my name is Ann", "my name is ann"), Some("ann".to_string()));
    let long = format!("叫我{}", "x".repeat(30));
    assert_eq!(try_extract_after(&long, "叫我").unwrap().len(), 24);
}

#[test]
fn what_asks_to_be_remembered() {
    assert!(should_extract("请记住我喜欢茶", "请记住我喜欢茶"));
    assert!(should_extract("Remember this", "remember this"));
    assert!(!should_extract("How are you", "how are you"));
    assert!(should_store_as_global_memory("全局都这样", "全局都这样"));
    assert!(should_store_as_global_memory("In every chat", "in every chat"));
    assert!(!should_store_as_global_memory("only here", "only here"));
}

#[test]
fn importance_of_lines() {
    assert_eq!(rate_line("这是最重要的", "这是最重要的"), 9);
    assert_eq!(rate_line("You must", "you must"), 9);
    assert_eq!(rate_line("长期坚持", "长期坚持"), 8);
    assert_eq!(rate_line("My goal", "my goal"), 7);
    assert_eq!(rate_line("I like tea", "i like tea"), 6);
}

#[test]
fn candidates_come_from_requests_alone() {
    assert_eq!(candidates("what a nice day it is today", "what a nice day it is today").len(), 0);
    assert_eq!(candidates("remember", "remember").len(), 0);
    let text = "Please remember that I like green tea. In every chat use English words. ok";
    let found = candidates(text, &text.to_lowercase());
    assert_eq!(found.len(), 2);
    assert_eq!(found[0].content, "Please remember that I like green tea");
    assert_eq!(found[0].importance, 6);
    assert!(!found[0].global);
    assert_eq!(found[1].content, "In every chat use English words");
    assert!(found[1].global);
    let many = "remember this long line. ".repeat(12);
    assert_eq!(candidates(&many, &many).len(), 8);
}

#[test]
fn profiles_take_in_messages() {
    let text = "Call me Bob, my goal is to enjoy music. Please be concise and direct. Answer in English";
    let (u, changed) = update_user_profile(text, &text.to_lowercase(), user());
    assert!(changed);
    assert_eq!(u.preferred_name, "bob");
    assert_eq!(u.long_term_goals, text);
    assert_eq!(u.interests, text);
    assert_eq!(u.important_experiences, "");
    assert_eq!(u.language_preference, "en");
    assert_eq!(u.notes, text);
    assert_eq!(u.updated_at, "t0");
    let (s, changed) = update_style_profile(text, &text.to_lowercase(), style());
    assert!(changed);
    assert_eq!(s.detail_level, "concise");
    assert_eq!(s.tone, "direct");
    assert_eq!(s.technical_level, "balanced");
    assert_eq!(s.language_style, "en");
    assert_eq!(s.explicit_preferences, text);

    let (_, again) = update_user_profile(text, &text.to_lowercase(), u);
    assert!(!again);
    let (_, again) = update_style_profile(text, &text.to_lowercase(), s);
    assert!(!again);
}

#[test]
fn later_words_win_in_profiles() {
    let text = "用中文，但是用英文回答；简洁但是详细，直接但是温和，代码通俗";
    let (u, _) = update_user_profile(text, text, user());
    assert_eq!(u.language_preference, "en");
    let (s, _) = update_style_profile(text, text, style());
    assert_eq!(s.detail_level, "detailed");
    assert_eq!(s.tone, "gentle");
    assert_eq!(s.technical_level, "plain");
}

#[test]
fn sentences_and_summary_lines() {
    assert_eq!(first_sentence("One  two. Three", 170), "One two.");
    assert_eq!(first_sentence("abcdef", 3), "abc");
    assert_eq!(first_sentence("  ", 10), "");
    assert_eq!(summary_line("user", "Tell me a story. Now"), Some("- User: Tell me a story.".to_string()));
    assert_eq!(summary_line("assistant", "Once upon a time"), Some("- Assistant: Once upon a time".to_string()));
    assert_eq!(summary_line("user", "short."), None);
    assert_eq!(summary_line("system", "long enough text"), None);
}

#[test]
fn summaries_hold_each_line_once() {
    let items = vec![
        message(1, "user", "Tell me a story please"),
        message(2, "assistant", "Once upon a time there was a fox"),
        message(3, "user", "Tell me a story please"),
    ];
    assert_eq!(
        build_summary(&items),
        "Earlier conversation summary segment:\n- User: Tell me a story please\n- Assistant: Once upon a time there was a fox"
    );
    assert_eq!(build_summary(&[message(1, "user", "hi")]), "");
    let many: Vec<Message> = (0..30).map(|n| message(n, "user", &format!("message number {n:03}"))).collect();
    assert_eq!(build_summary(&many).lines().count(), 17);
}

#[test]
fn segments_leave_the_newest_messages() {
    let talk = |n: usize| -> Vec<Message> {
        (0..n).map(|k| message(k, "user", &format!("this is message number {k}"))).collect()
    };
    assert_eq!(plan_segments(&talk(20)).len(), 0);
    assert_eq!(plan_segments(&talk(25)).len(), 0);
    let one = plan_segments(&talk(26));
    assert_eq!(one.len(), 1);
    assert_eq!((one[0].start, one[0].count), (0, 8));
    let two = plan_segments(&talk(18 + 18 + 8));
    assert_eq!(two.iter().map(|s| (s.start, s.count)).collect::<Vec<_>>(), vec![(0, 18), (18, 8)]);
    let rest = plan_segments(&talk(18 + 18 + 7));
    assert_eq!(rest.iter().map(|s| (s.start, s.count)).collect::<Vec<_>>(), vec![(0, 18)]);
    assert_eq!(rest[0].summary, build_summary(&talk(18)));
}

#[test]
fn segments_end_where_nothing_is_said() {
    let mut talk: Vec<Message> = (0..60).map(|k| message(k, "user", "x")).collect();
    for m in talk.iter_mut().take(18) {
        m.content = "something worth telling".to_string();
    }
    let segs = plan_segments(&talk);
    assert_eq!(segs.len(), 1);
}

#[test]
fn adding_a_line_twice_is_adding_it_once() {
    for base in ["", " one \n\n two", "one\ntwo\nthree", "  new  line\none"] {
        for line in [" new \t line ", "", "one", "two\nthree"] {
            for max in [0, 1, 2, 24] {
                let once = add_unique_line(base, line, max);
                assert_eq!(add_unique_line(&once, line, max), once);
            }
        }
    }
    assert_eq!(add_unique_line("one\n two \n", "new  line", 2), "two\nnew line");
}
