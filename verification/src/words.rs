//! The words by which wishes and facts are known.
use vstd::prelude::*;
use crate::text::{contains_any, has_any, strs};

verus! {

/// The words that ask to remember something.
pub open spec fn remember_words() -> Seq<Seq<char>> {
    seq![
        "记住"@, "长期"@, "一直"@, "习惯"@, "偏好"@, "目标"@, "计划"@, "以后"@, "事实"@, "重要信息"@, "请记住"@,
        "以后都这样"@, "长期偏好"@, "长期目标"@, "永久"@, "全局"@, "跨会话"@, "所有会话"@, "所有对话"@, "每个会话"@, "每个对话"@,
        "默认按这个"@, "以后都按这个"@, "总是按这个"@, "记下来"@,
    ]
}

/// Whether a text holds one of them.
pub fn mentions_remember_words(s: &str) -> (r: bool)
    ensures
        r == has_any(s@, remember_words()),
{
    let keys: [&str; 25] = [
        "记住", "长期", "一直", "习惯", "偏好", "目标", "计划", "以后", "事实", "重要信息", "请记住", "以后都这样", "长期偏好",
        "长期目标", "永久", "全局", "跨会话", "所有会话", "所有对话", "每个会话", "每个对话", "默认按这个", "以后都按这个", "总是按这个",
        "记下来",
    ];
    assert(strs(keys@) =~= remember_words());
    contains_any(s, &keys)
}

/// The words that ask to remember something, in lower case.
pub open spec fn remember_words_lowered() -> Seq<Seq<char>> {
    seq![
        "remember"@, "long-term"@, "habit"@, "preference"@, "goal"@, "plan"@, "always"@,
        "important"@, "fact"@, "remember this"@, "from now on"@, "keep this in mind"@,
        "please remember"@,
    ]
}

/// Whether a text holds one of them.
pub fn mentions_remember_words_lowered(s: &str) -> (r: bool)
    ensures
        r == has_any(s@, remember_words_lowered()),
{
    let keys: [&str; 13] = [
        "remember", "long-term", "habit", "preference", "goal", "plan", "always", "important",
        "fact", "remember this", "from now on", "keep this in mind", "please remember",
    ];
    assert(strs(keys@) =~= remember_words_lowered());
    contains_any(s, &keys)
}

/// The words that ask to remember something in every conversation.
pub open spec fn global_words() -> Seq<Seq<char>> {
    seq![
        "全局"@, "跨会话"@, "所有会话"@, "所有对话"@, "每个会话"@, "每个对话"@, "默认都按这个"@, "以后都按这个"@, "永久记住"@,
    ]
}

/// Whether a text holds one of them.
pub fn mentions_global_words(s: &str) -> (r: bool)
    ensures
        r == has_any(s@, global_words()),
{
    let keys: [&str; 9] = [
        "全局", "跨会话", "所有会话", "所有对话", "每个会话", "每个对话", "默认都按这个", "以后都按这个", "永久记住",
    ];
    assert(strs(keys@) =~= global_words());
    contains_any(s, &keys)
}

/// The words that ask to remember something in every conversation, in lower case.
pub open spec fn global_words_lowered() -> Seq<Seq<char>> {
    seq![
        "global"@, "across chats"@, "across conversations"@, "in every chat"@,
        "remember this globally"@, "permanently remember"@,
    ]
}

/// Whether a text holds one of them.
pub fn mentions_global_words_lowered(s: &str) -> (r: bool)
    ensures
        r == has_any(s@, global_words_lowered()),
{
    let keys: [&str; 6] = [
        "global", "across chats", "across conversations", "in every chat",
        "remember this globally", "permanently remember",
    ];
    assert(strs(keys@) =~= global_words_lowered());
    contains_any(s, &keys)
}

/// The words of utmost importance.
pub open spec fn utmost_words() -> Seq<Seq<char>> {
    seq![
        "最重要"@, "必须"@, "永远"@,
    ]
}

/// Whether a text holds one of them.
pub fn mentions_utmost_words(s: &str) -> (r: bool)
    ensures
        r == has_any(s@, utmost_words()),
{
    let keys: [&str; 3] = [
        "最重要", "必须", "永远",
    ];
    assert(strs(keys@) =~= utmost_words());
    contains_any(s, &keys)
}

/// The words of lasting importance.
pub open spec fn lasting_words() -> Seq<Seq<char>> {
    seq![
        "长期"@, "一直"@, "持续"@,
    ]
}

/// Whether a text holds one of them.
pub fn mentions_lasting_words(s: &str) -> (r: bool)
    ensures
        r == has_any(s@, lasting_words()),
{
    let keys: [&str; 3] = [
        "长期", "一直", "持续",
    ];
    assert(strs(keys@) =~= lasting_words());
    contains_any(s, &keys)
}

/// The words of aims.
pub open spec fn aim_words() -> Seq<Seq<char>> {
    seq![
        "目标"@, "计划"@,
    ]
}

/// Whether a text holds one of them.
pub fn mentions_aim_words(s: &str) -> (r: bool)
    ensures
        r == has_any(s@, aim_words()),
{
    let keys: [&str; 2] = [
        "目标", "计划",
    ];
    assert(strs(keys@) =~= aim_words());
    contains_any(s, &keys)
}

/// The words of goals.
pub open spec fn goal_words() -> Seq<Seq<char>> {
    seq![
        "目标"@, "计划"@, "想要"@, "我要"@, "希望"@, "以后"@, "长期"@,
    ]
}

/// Whether a text holds one of them.
pub fn mentions_goal_words(s: &str) -> (r: bool)
    ensures
        r == has_any(s@, goal_words()),
{
    let keys: [&str; 7] = [
        "目标", "计划", "想要", "我要", "希望", "以后", "长期",
    ];
    assert(strs(keys@) =~= goal_words());
    contains_any(s, &keys)
}

/// The words of goals, in lower case.
pub open spec fn goal_words_lowered() -> Seq<Seq<char>> {
    seq![
        "goal"@, "plan"@, "roadmap"@, "i want"@, "i need"@,
    ]
}

/// Whether a text holds one of them.
pub fn mentions_goal_words_lowered(s: &str) -> (r: bool)
    ensures
        r == has_any(s@, goal_words_lowered()),
{
    let keys: [&str; 5] = [
        "goal", "plan", "roadmap", "i want", "i need",
    ];
    assert(strs(keys@) =~= goal_words_lowered());
    contains_any(s, &keys)
}

/// The words of interests.
pub open spec fn interest_words() -> Seq<Seq<char>> {
    seq![
        "喜欢"@, "兴趣"@, "爱好"@, "关注"@,
    ]
}

/// Whether a text holds one of them.
pub fn mentions_interest_words(s: &str) -> (r: bool)
    ensures
        r == has_any(s@, interest_words()),
{
    let keys: [&str; 4] = [
        "喜欢", "兴趣", "爱好", "关注",
    ];
    assert(strs(keys@) =~= interest_words());
    contains_any(s, &keys)
}

/// The words of interests, in lower case.
pub open spec fn interest_words_lowered() -> Seq<Seq<char>> {
    seq![
        "interest"@, "hobby"@, "love"@, "enjoy"@,
    ]
}

/// Whether a text holds one of them.
pub fn mentions_interest_words_lowered(s: &str) -> (r: bool)
    ensures
        r == has_any(s@, interest_words_lowered()),
{
    let keys: [&str; 4] = [
        "interest", "hobby", "love", "enjoy",
    ];
    assert(strs(keys@) =~= interest_words_lowered());
    contains_any(s, &keys)
}

/// The words of events.
pub open spec fn event_words() -> Seq<Seq<char>> {
    seq![
        "经历"@, "最近"@, "今天"@, "昨天"@, "上周"@, "刚刚"@, "发生"@,
    ]
}

/// Whether a text holds one of them.
pub fn mentions_event_words(s: &str) -> (r: bool)
    ensures
        r == has_any(s@, event_words()),
{
    let keys: [&str; 7] = [
        "经历", "最近", "今天", "昨天", "上周", "刚刚", "发生",
    ];
    assert(strs(keys@) =~= event_words());
    contains_any(s, &keys)
}

/// The words of events, in lower case.
pub open spec fn event_words_lowered() -> Seq<Seq<char>> {
    seq![
        "experience"@, "recently"@, "today"@, "yesterday"@, "happened"@,
    ]
}

/// Whether a text holds one of them.
pub fn mentions_event_words_lowered(s: &str) -> (r: bool)
    ensures
        r == has_any(s@, event_words_lowered()),
{
    let keys: [&str; 5] = [
        "experience", "recently", "today", "yesterday", "happened",
    ];
    assert(strs(keys@) =~= event_words_lowered());
    contains_any(s, &keys)
}

/// The words that ask for Chinese.
pub open spec fn chinese_words() -> Seq<Seq<char>> {
    seq![
        "用中文"@, "中文回答"@, "中文为主"@,
    ]
}

/// Whether a text holds one of them.
pub fn mentions_chinese_words(s: &str) -> (r: bool)
    ensures
        r == has_any(s@, chinese_words()),
{
    let keys: [&str; 3] = [
        "用中文", "中文回答", "中文为主",
    ];
    assert(strs(keys@) =~= chinese_words());
    contains_any(s, &keys)
}

/// The words that ask for English.
pub open spec fn english_words() -> Seq<Seq<char>> {
    seq![
        "用英文"@, "英文回答"@, "英语回答"@,
    ]
}

/// Whether a text holds one of them.
pub fn mentions_english_words(s: &str) -> (r: bool)
    ensures
        r == has_any(s@, english_words()),
{
    let keys: [&str; 3] = [
        "用英文", "英文回答", "英语回答",
    ];
    assert(strs(keys@) =~= english_words());
    contains_any(s, &keys)
}

/// The words that ask for English, in lower case.
pub open spec fn english_words_lowered() -> Seq<Seq<char>> {
    seq![
        "answer in english"@, "use english"@,
    ]
}

/// Whether a text holds one of them.
pub fn mentions_english_words_lowered(s: &str) -> (r: bool)
    ensures
        r == has_any(s@, english_words_lowered()),
{
    let keys: [&str; 2] = [
        "answer in english", "use english",
    ];
    assert(strs(keys@) =~= english_words_lowered());
    contains_any(s, &keys)
}

/// The words of requests.
pub open spec fn request_words() -> Seq<Seq<char>> {
    seq![
        "请你"@, "希望你"@, "以后"@, "回复时"@, "别"@, "不要"@,
    ]
}

/// Whether a text holds one of them.
pub fn mentions_request_words(s: &str) -> (r: bool)
    ensures
        r == has_any(s@, request_words()),
{
    let keys: [&str; 6] = [
        "请你", "希望你", "以后", "回复时", "别", "不要",
    ];
    assert(strs(keys@) =~= request_words());
    contains_any(s, &keys)
}

/// The words of requests, in lower case.
pub open spec fn request_words_lowered() -> Seq<Seq<char>> {
    seq![
        "please"@, "from now on"@, "reply"@, "do not"@,
    ]
}

/// Whether a text holds one of them.
pub fn mentions_request_words_lowered(s: &str) -> (r: bool)
    ensures
        r == has_any(s@, request_words_lowered()),
{
    let keys: [&str; 4] = [
        "please", "from now on", "reply", "do not",
    ];
    assert(strs(keys@) =~= request_words_lowered());
    contains_any(s, &keys)
}

/// The words that ask for short answers.
pub open spec fn concise_words() -> Seq<Seq<char>> {
    seq![
        "简洁"@, "简短"@, "短一点"@, "直接给结论"@,
    ]
}

/// Whether a text holds one of them.
pub fn mentions_concise_words(s: &str) -> (r: bool)
    ensures
        r == has_any(s@, concise_words()),
{
    let keys: [&str; 4] = [
        "简洁", "简短", "短一点", "直接给结论",
    ];
    assert(strs(keys@) =~= concise_words());
    contains_any(s, &keys)
}

/// The words that ask for short answers, in lower case.
pub open spec fn concise_words_lowered() -> Seq<Seq<char>> {
    seq![
        "concise"@, "brief"@, "short answer"@,
    ]
}

/// Whether a text holds one of them.
pub fn mentions_concise_words_lowered(s: &str) -> (r: bool)
    ensures
        r == has_any(s@, concise_words_lowered()),
{
    let keys: [&str; 3] = [
        "concise", "brief", "short answer",
    ];
    assert(strs(keys@) =~= concise_words_lowered());
    contains_any(s, &keys)
}

/// The words that ask for long answers.
pub open spec fn detailed_words() -> Seq<Seq<char>> {
    seq![
        "详细"@, "展开"@, "多讲点"@, "详细一点"@,
    ]
}

/// Whether a text holds one of them.
pub fn mentions_detailed_words(s: &str) -> (r: bool)
    ensures
        r == has_any(s@, detailed_words()),
{
    let keys: [&str; 4] = [
        "详细", "展开", "多讲点", "详细一点",
    ];
    assert(strs(keys@) =~= detailed_words());
    contains_any(s, &keys)
}

/// The words that ask for long answers, in lower case.
pub open spec fn detailed_words_lowered() -> Seq<Seq<char>> {
    seq![
        "detailed"@, "step by step"@, "more detail"@,
    ]
}

/// Whether a text holds one of them.
pub fn mentions_detailed_words_lowered(s: &str) -> (r: bool)
    ensures
        r == has_any(s@, detailed_words_lowered()),
{
    let keys: [&str; 3] = [
        "detailed", "step by step", "more detail",
    ];
    assert(strs(keys@) =~= detailed_words_lowered());
    contains_any(s, &keys)
}

/// The words that ask for plain speech.
pub open spec fn direct_words() -> Seq<Seq<char>> {
    seq![
        "直接"@, "别客套"@, "直说"@, "不用安慰"@,
    ]
}

/// Whether a text holds one of them.
pub fn mentions_direct_words(s: &str) -> (r: bool)
    ensures
        r == has_any(s@, direct_words()),
{
    let keys: [&str; 4] = [
        "直接", "别客套", "直说", "不用安慰",
    ];
    assert(strs(keys@) =~= direct_words());
    contains_any(s, &keys)
}

/// The words that ask for plain speech, in lower case.
pub open spec fn direct_words_lowered() -> Seq<Seq<char>> {
    seq![
        "direct"@, "be blunt"@, "straight to point"@,
    ]
}

/// Whether a text holds one of them.
pub fn mentions_direct_words_lowered(s: &str) -> (r: bool)
    ensures
        r == has_any(s@, direct_words_lowered()),
{
    let keys: [&str; 3] = [
        "direct", "be blunt", "straight to point",
    ];
    assert(strs(keys@) =~= direct_words_lowered());
    contains_any(s, &keys)
}

/// The words that ask for kindness.
pub open spec fn gentle_words() -> Seq<Seq<char>> {
    seq![
        "温和"@, "友好"@, "鼓励"@, "耐心"@,
    ]
}

/// Whether a text holds one of them.
pub fn mentions_gentle_words(s: &str) -> (r: bool)
    ensures
        r == has_any(s@, gentle_words()),
{
    let keys: [&str; 4] = [
        "温和", "友好", "鼓励", "耐心",
    ];
    assert(strs(keys@) =~= gentle_words());
    contains_any(s, &keys)
}

/// The words that ask for kindness, in lower case.
pub open spec fn gentle_words_lowered() -> Seq<Seq<char>> {
    seq![
        "gentle"@, "friendly"@, "encourage"@, "patient"@,
    ]
}

/// Whether a text holds one of them.
pub fn mentions_gentle_words_lowered(s: &str) -> (r: bool)
    ensures
        r == has_any(s@, gentle_words_lowered()),
{
    let keys: [&str; 4] = [
        "gentle", "friendly", "encourage", "patient",
    ];
    assert(strs(keys@) =~= gentle_words_lowered());
    contains_any(s, &keys)
}

/// The words that ask for technical answers.
pub open spec fn technical_words() -> Seq<Seq<char>> {
    seq![
        "技术细节"@, "术语"@, "代码"@, "专业点"@,
    ]
}

/// Whether a text holds one of them.
pub fn mentions_technical_words(s: &str) -> (r: bool)
    ensures
        r == has_any(s@, technical_words()),
{
    let keys: [&str; 4] = [
        "技术细节", "术语", "代码", "专业点",
    ];
    assert(strs(keys@) =~= technical_words());
    contains_any(s, &keys)
}

/// The words that ask for technical answers, in lower case.
pub open spec fn technical_words_lowered() -> Seq<Seq<char>> {
    seq![
        "technical"@, "terminology"@, "code-level"@, "professional"@,
    ]
}

/// Whether a text holds one of them.
pub fn mentions_technical_words_lowered(s: &str) -> (r: bool)
    ensures
        r == has_any(s@, technical_words_lowered()),
{
    let keys: [&str; 4] = [
        "technical", "terminology", "code-level", "professional",
    ];
    assert(strs(keys@) =~= technical_words_lowered());
    contains_any(s, &keys)
}

/// The words that ask for simple answers.
pub open spec fn plain_words() -> Seq<Seq<char>> {
    seq![
        "通俗"@, "简单点"@, "小白"@, "听不懂"@,
    ]
}

/// Whether a text holds one of them.
pub fn mentions_plain_words(s: &str) -> (r: bool)
    ensures
        r == has_any(s@, plain_words()),
{
    let keys: [&str; 4] = [
        "通俗", "简单点", "小白", "听不懂",
    ];
    assert(strs(keys@) =~= plain_words());
    contains_any(s, &keys)
}

/// The words that ask for simple answers, in lower case.
pub open spec fn plain_words_lowered() -> Seq<Seq<char>> {
    seq![
        "plain language"@, "simple"@, "easy to understand"@,
    ]
}

/// Whether a text holds one of them.
pub fn mentions_plain_words_lowered(s: &str) -> (r: bool)
    ensures
        r == has_any(s@, plain_words_lowered()),
{
    let keys: [&str; 3] = [
        "plain language", "simple", "easy to understand",
    ];
    assert(strs(keys@) =~= plain_words_lowered());
    contains_any(s, &keys)
}

} // verus!
