//! The words by which wishes are known, one by one.
use vstd::prelude::*;
use crate::text::{has_any, has_part};
use crate::words::{
    aim_words, chinese_words, concise_words, concise_words_lowered, detailed_words,
    detailed_words_lowered, direct_words, direct_words_lowered, english_words,
    english_words_lowered, event_words, event_words_lowered, gentle_words, gentle_words_lowered,
    global_words, global_words_lowered, goal_words, goal_words_lowered, interest_words,
    interest_words_lowered, lasting_words, plain_words, plain_words_lowered, remember_words,
    remember_words_lowered, request_words, request_words_lowered, technical_words,
    technical_words_lowered, utmost_words,
};

verus! {

/// The remember words of a text: one of these stands in it.
pub open spec fn has_remember_words(s: Seq<char>) -> bool {
    ||| has_part(s, "记住"@)
    ||| has_part(s, "长期"@)
    ||| has_part(s, "一直"@)
    ||| has_part(s, "习惯"@)
    ||| has_part(s, "偏好"@)
    ||| has_part(s, "目标"@)
    ||| has_part(s, "计划"@)
    ||| has_part(s, "以后"@)
    ||| has_part(s, "事实"@)
    ||| has_part(s, "重要信息"@)
    ||| has_part(s, "请记住"@)
    ||| has_part(s, "以后都这样"@)
    ||| has_part(s, "长期偏好"@)
    ||| has_part(s, "长期目标"@)
    ||| has_part(s, "永久"@)
    ||| has_part(s, "全局"@)
    ||| has_part(s, "跨会话"@)
    ||| has_part(s, "所有会话"@)
    ||| has_part(s, "所有对话"@)
    ||| has_part(s, "每个会话"@)
    ||| has_part(s, "每个对话"@)
    ||| has_part(s, "默认按这个"@)
    ||| has_part(s, "以后都按这个"@)
    ||| has_part(s, "总是按这个"@)
    ||| has_part(s, "记下来"@)
}

/// A text has one of the words exactly where one of these stands in it.
pub proof fn law_remember_words(s: Seq<char>)
    ensures
        has_any(s, remember_words()) == has_remember_words(s),
{
    let keys = remember_words();
    assert(keys.len() == 25);
    assert(keys[0] == "记住"@);
    assert(keys[1] == "长期"@);
    assert(keys[2] == "一直"@);
    assert(keys[3] == "习惯"@);
    assert(keys[4] == "偏好"@);
    assert(keys[5] == "目标"@);
    assert(keys[6] == "计划"@);
    assert(keys[7] == "以后"@);
    assert(keys[8] == "事实"@);
    assert(keys[9] == "重要信息"@);
    assert(keys[10] == "请记住"@);
    assert(keys[11] == "以后都这样"@);
    assert(keys[12] == "长期偏好"@);
    assert(keys[13] == "长期目标"@);
    assert(keys[14] == "永久"@);
    assert(keys[15] == "全局"@);
    assert(keys[16] == "跨会话"@);
    assert(keys[17] == "所有会话"@);
    assert(keys[18] == "所有对话"@);
    assert(keys[19] == "每个会话"@);
    assert(keys[20] == "每个对话"@);
    assert(keys[21] == "默认按这个"@);
    assert(keys[22] == "以后都按这个"@);
    assert(keys[23] == "总是按这个"@);
    assert(keys[24] == "记下来"@);
    if has_any(s, keys) {
        let k = choose|k: int| 0 <= k < keys.len() && has_part(s, #[trigger] keys[k]);
        assert(k == 0 || k == 1 || k == 2 || k == 3 || k == 4 || k == 5 || k == 6 || k == 7
            || k == 8 || k == 9 || k == 10 || k == 11 || k == 12 || k == 13 || k == 14
            || k == 15 || k == 16 || k == 17 || k == 18 || k == 19 || k == 20 || k == 21
            || k == 22 || k == 23 || k == 24);
    }
}

/// The remember words of a text in lower case: one of these stands in it.
pub open spec fn has_remember_words_lowered(s: Seq<char>) -> bool {
    ||| has_part(s, "remember"@)
    ||| has_part(s, "long-term"@)
    ||| has_part(s, "habit"@)
    ||| has_part(s, "preference"@)
    ||| has_part(s, "goal"@)
    ||| has_part(s, "plan"@)
    ||| has_part(s, "always"@)
    ||| has_part(s, "important"@)
    ||| has_part(s, "fact"@)
    ||| has_part(s, "remember this"@)
    ||| has_part(s, "from now on"@)
    ||| has_part(s, "keep this in mind"@)
    ||| has_part(s, "please remember"@)
}

/// A text has one of the words exactly where one of these stands in it.
pub proof fn law_remember_words_lowered(s: Seq<char>)
    ensures
        has_any(s, remember_words_lowered()) == has_remember_words_lowered(s),
{
    let keys = remember_words_lowered();
    assert(keys.len() == 13);
    assert(keys[0] == "remember"@);
    assert(keys[1] == "long-term"@);
    assert(keys[2] == "habit"@);
    assert(keys[3] == "preference"@);
    assert(keys[4] == "goal"@);
    assert(keys[5] == "plan"@);
    assert(keys[6] == "always"@);
    assert(keys[7] == "important"@);
    assert(keys[8] == "fact"@);
    assert(keys[9] == "remember this"@);
    assert(keys[10] == "from now on"@);
    assert(keys[11] == "keep this in mind"@);
    assert(keys[12] == "please remember"@);
    if has_any(s, keys) {
        let k = choose|k: int| 0 <= k < keys.len() && has_part(s, #[trigger] keys[k]);
        assert(k == 0 || k == 1 || k == 2 || k == 3 || k == 4 || k == 5 || k == 6 || k == 7
            || k == 8 || k == 9 || k == 10 || k == 11 || k == 12);
    }
}

/// The global words of a text: one of these stands in it.
pub open spec fn has_global_words(s: Seq<char>) -> bool {
    ||| has_part(s, "全局"@)
    ||| has_part(s, "跨会话"@)
    ||| has_part(s, "所有会话"@)
    ||| has_part(s, "所有对话"@)
    ||| has_part(s, "每个会话"@)
    ||| has_part(s, "每个对话"@)
    ||| has_part(s, "默认都按这个"@)
    ||| has_part(s, "以后都按这个"@)
    ||| has_part(s, "永久记住"@)
}

/// A text has one of the words exactly where one of these stands in it.
pub proof fn law_global_words(s: Seq<char>)
    ensures
        has_any(s, global_words()) == has_global_words(s),
{
    let keys = global_words();
    assert(keys.len() == 9);
    assert(keys[0] == "全局"@);
    assert(keys[1] == "跨会话"@);
    assert(keys[2] == "所有会话"@);
    assert(keys[3] == "所有对话"@);
    assert(keys[4] == "每个会话"@);
    assert(keys[5] == "每个对话"@);
    assert(keys[6] == "默认都按这个"@);
    assert(keys[7] == "以后都按这个"@);
    assert(keys[8] == "永久记住"@);
    if has_any(s, keys) {
        let k = choose|k: int| 0 <= k < keys.len() && has_part(s, #[trigger] keys[k]);
        assert(k == 0 || k == 1 || k == 2 || k == 3 || k == 4 || k == 5 || k == 6 || k == 7
            || k == 8);
    }
}

/// The global words of a text in lower case: one of these stands in it.
pub open spec fn has_global_words_lowered(s: Seq<char>) -> bool {
    ||| has_part(s, "global"@)
    ||| has_part(s, "across chats"@)
    ||| has_part(s, "across conversations"@)
    ||| has_part(s, "in every chat"@)
    ||| has_part(s, "remember this globally"@)
    ||| has_part(s, "permanently remember"@)
}

/// A text has one of the words exactly where one of these stands in it.
pub proof fn law_global_words_lowered(s: Seq<char>)
    ensures
        has_any(s, global_words_lowered()) == has_global_words_lowered(s),
{
    let keys = global_words_lowered();
    assert(keys.len() == 6);
    assert(keys[0] == "global"@);
    assert(keys[1] == "across chats"@);
    assert(keys[2] == "across conversations"@);
    assert(keys[3] == "in every chat"@);
    assert(keys[4] == "remember this globally"@);
    assert(keys[5] == "permanently remember"@);
    if has_any(s, keys) {
        let k = choose|k: int| 0 <= k < keys.len() && has_part(s, #[trigger] keys[k]);
        assert(k == 0 || k == 1 || k == 2 || k == 3 || k == 4 || k == 5);
    }
}

/// The utmost words of a text: one of these stands in it.
pub open spec fn has_utmost_words(s: Seq<char>) -> bool {
    ||| has_part(s, "最重要"@)
    ||| has_part(s, "必须"@)
    ||| has_part(s, "永远"@)
}

/// A text has one of the words exactly where one of these stands in it.
pub proof fn law_utmost_words(s: Seq<char>)
    ensures
        has_any(s, utmost_words()) == has_utmost_words(s),
{
    let keys = utmost_words();
    assert(keys.len() == 3);
    assert(keys[0] == "最重要"@);
    assert(keys[1] == "必须"@);
    assert(keys[2] == "永远"@);
    if has_any(s, keys) {
        let k = choose|k: int| 0 <= k < keys.len() && has_part(s, #[trigger] keys[k]);
        assert(k == 0 || k == 1 || k == 2);
    }
}

/// The lasting words of a text: one of these stands in it.
pub open spec fn has_lasting_words(s: Seq<char>) -> bool {
    ||| has_part(s, "长期"@)
    ||| has_part(s, "一直"@)
    ||| has_part(s, "持续"@)
}

/// A text has one of the words exactly where one of these stands in it.
pub proof fn law_lasting_words(s: Seq<char>)
    ensures
        has_any(s, lasting_words()) == has_lasting_words(s),
{
    let keys = lasting_words();
    assert(keys.len() == 3);
    assert(keys[0] == "长期"@);
    assert(keys[1] == "一直"@);
    assert(keys[2] == "持续"@);
    if has_any(s, keys) {
        let k = choose|k: int| 0 <= k < keys.len() && has_part(s, #[trigger] keys[k]);
        assert(k == 0 || k == 1 || k == 2);
    }
}

/// The aim words of a text: one of these stands in it.
pub open spec fn has_aim_words(s: Seq<char>) -> bool {
    ||| has_part(s, "目标"@)
    ||| has_part(s, "计划"@)
}

/// A text has one of the words exactly where one of these stands in it.
pub proof fn law_aim_words(s: Seq<char>)
    ensures
        has_any(s, aim_words()) == has_aim_words(s),
{
    let keys = aim_words();
    assert(keys.len() == 2);
    assert(keys[0] == "目标"@);
    assert(keys[1] == "计划"@);
    if has_any(s, keys) {
        let k = choose|k: int| 0 <= k < keys.len() && has_part(s, #[trigger] keys[k]);
        assert(k == 0 || k == 1);
    }
}

/// The goal words of a text: one of these stands in it.
pub open spec fn has_goal_words(s: Seq<char>) -> bool {
    ||| has_part(s, "目标"@)
    ||| has_part(s, "计划"@)
    ||| has_part(s, "想要"@)
    ||| has_part(s, "我要"@)
    ||| has_part(s, "希望"@)
    ||| has_part(s, "以后"@)
    ||| has_part(s, "长期"@)
}

/// A text has one of the words exactly where one of these stands in it.
pub proof fn law_goal_words(s: Seq<char>)
    ensures
        has_any(s, goal_words()) == has_goal_words(s),
{
    let keys = goal_words();
    assert(keys.len() == 7);
    assert(keys[0] == "目标"@);
    assert(keys[1] == "计划"@);
    assert(keys[2] == "想要"@);
    assert(keys[3] == "我要"@);
    assert(keys[4] == "希望"@);
    assert(keys[5] == "以后"@);
    assert(keys[6] == "长期"@);
    if has_any(s, keys) {
        let k = choose|k: int| 0 <= k < keys.len() && has_part(s, #[trigger] keys[k]);
        assert(k == 0 || k == 1 || k == 2 || k == 3 || k == 4 || k == 5 || k == 6);
    }
}

/// The goal words of a text in lower case: one of these stands in it.
pub open spec fn has_goal_words_lowered(s: Seq<char>) -> bool {
    ||| has_part(s, "goal"@)
    ||| has_part(s, "plan"@)
    ||| has_part(s, "roadmap"@)
    ||| has_part(s, "i want"@)
    ||| has_part(s, "i need"@)
}

/// A text has one of the words exactly where one of these stands in it.
pub proof fn law_goal_words_lowered(s: Seq<char>)
    ensures
        has_any(s, goal_words_lowered()) == has_goal_words_lowered(s),
{
    let keys = goal_words_lowered();
    assert(keys.len() == 5);
    assert(keys[0] == "goal"@);
    assert(keys[1] == "plan"@);
    assert(keys[2] == "roadmap"@);
    assert(keys[3] == "i want"@);
    assert(keys[4] == "i need"@);
    if has_any(s, keys) {
        let k = choose|k: int| 0 <= k < keys.len() && has_part(s, #[trigger] keys[k]);
        assert(k == 0 || k == 1 || k == 2 || k == 3 || k == 4);
    }
}

/// The interest words of a text: one of these stands in it.
pub open spec fn has_interest_words(s: Seq<char>) -> bool {
    ||| has_part(s, "喜欢"@)
    ||| has_part(s, "兴趣"@)
    ||| has_part(s, "爱好"@)
    ||| has_part(s, "关注"@)
}

/// A text has one of the words exactly where one of these stands in it.
pub proof fn law_interest_words(s: Seq<char>)
    ensures
        has_any(s, interest_words()) == has_interest_words(s),
{
    let keys = interest_words();
    assert(keys.len() == 4);
    assert(keys[0] == "喜欢"@);
    assert(keys[1] == "兴趣"@);
    assert(keys[2] == "爱好"@);
    assert(keys[3] == "关注"@);
    if has_any(s, keys) {
        let k = choose|k: int| 0 <= k < keys.len() && has_part(s, #[trigger] keys[k]);
        assert(k == 0 || k == 1 || k == 2 || k == 3);
    }
}

/// The interest words of a text in lower case: one of these stands in it.
pub open spec fn has_interest_words_lowered(s: Seq<char>) -> bool {
    ||| has_part(s, "interest"@)
    ||| has_part(s, "hobby"@)
    ||| has_part(s, "love"@)
    ||| has_part(s, "enjoy"@)
}

/// A text has one of the words exactly where one of these stands in it.
pub proof fn law_interest_words_lowered(s: Seq<char>)
    ensures
        has_any(s, interest_words_lowered()) == has_interest_words_lowered(s),
{
    let keys = interest_words_lowered();
    assert(keys.len() == 4);
    assert(keys[0] == "interest"@);
    assert(keys[1] == "hobby"@);
    assert(keys[2] == "love"@);
    assert(keys[3] == "enjoy"@);
    if has_any(s, keys) {
        let k = choose|k: int| 0 <= k < keys.len() && has_part(s, #[trigger] keys[k]);
        assert(k == 0 || k == 1 || k == 2 || k == 3);
    }
}

/// The event words of a text: one of these stands in it.
pub open spec fn has_event_words(s: Seq<char>) -> bool {
    ||| has_part(s, "经历"@)
    ||| has_part(s, "最近"@)
    ||| has_part(s, "今天"@)
    ||| has_part(s, "昨天"@)
    ||| has_part(s, "上周"@)
    ||| has_part(s, "刚刚"@)
    ||| has_part(s, "发生"@)
}

/// A text has one of the words exactly where one of these stands in it.
pub proof fn law_event_words(s: Seq<char>)
    ensures
        has_any(s, event_words()) == has_event_words(s),
{
    let keys = event_words();
    assert(keys.len() == 7);
    assert(keys[0] == "经历"@);
    assert(keys[1] == "最近"@);
    assert(keys[2] == "今天"@);
    assert(keys[3] == "昨天"@);
    assert(keys[4] == "上周"@);
    assert(keys[5] == "刚刚"@);
    assert(keys[6] == "发生"@);
    if has_any(s, keys) {
        let k = choose|k: int| 0 <= k < keys.len() && has_part(s, #[trigger] keys[k]);
        assert(k == 0 || k == 1 || k == 2 || k == 3 || k == 4 || k == 5 || k == 6);
    }
}

/// The event words of a text in lower case: one of these stands in it.
pub open spec fn has_event_words_lowered(s: Seq<char>) -> bool {
    ||| has_part(s, "experience"@)
    ||| has_part(s, "recently"@)
    ||| has_part(s, "today"@)
    ||| has_part(s, "yesterday"@)
    ||| has_part(s, "happened"@)
}

/// A text has one of the words exactly where one of these stands in it.
pub proof fn law_event_words_lowered(s: Seq<char>)
    ensures
        has_any(s, event_words_lowered()) == has_event_words_lowered(s),
{
    let keys = event_words_lowered();
    assert(keys.len() == 5);
    assert(keys[0] == "experience"@);
    assert(keys[1] == "recently"@);
    assert(keys[2] == "today"@);
    assert(keys[3] == "yesterday"@);
    assert(keys[4] == "happened"@);
    if has_any(s, keys) {
        let k = choose|k: int| 0 <= k < keys.len() && has_part(s, #[trigger] keys[k]);
        assert(k == 0 || k == 1 || k == 2 || k == 3 || k == 4);
    }
}

/// The chinese words of a text: one of these stands in it.
pub open spec fn has_chinese_words(s: Seq<char>) -> bool {
    ||| has_part(s, "用中文"@)
    ||| has_part(s, "中文回答"@)
    ||| has_part(s, "中文为主"@)
}

/// A text has one of the words exactly where one of these stands in it.
pub proof fn law_chinese_words(s: Seq<char>)
    ensures
        has_any(s, chinese_words()) == has_chinese_words(s),
{
    let keys = chinese_words();
    assert(keys.len() == 3);
    assert(keys[0] == "用中文"@);
    assert(keys[1] == "中文回答"@);
    assert(keys[2] == "中文为主"@);
    if has_any(s, keys) {
        let k = choose|k: int| 0 <= k < keys.len() && has_part(s, #[trigger] keys[k]);
        assert(k == 0 || k == 1 || k == 2);
    }
}

/// The english words of a text: one of these stands in it.
pub open spec fn has_english_words(s: Seq<char>) -> bool {
    ||| has_part(s, "用英文"@)
    ||| has_part(s, "英文回答"@)
    ||| has_part(s, "英语回答"@)
}

/// A text has one of the words exactly where one of these stands in it.
pub proof fn law_english_words(s: Seq<char>)
    ensures
        has_any(s, english_words()) == has_english_words(s),
{
    let keys = english_words();
    assert(keys.len() == 3);
    assert(keys[0] == "用英文"@);
    assert(keys[1] == "英文回答"@);
    assert(keys[2] == "英语回答"@);
    if has_any(s, keys) {
        let k = choose|k: int| 0 <= k < keys.len() && has_part(s, #[trigger] keys[k]);
        assert(k == 0 || k == 1 || k == 2);
    }
}

/// The english words of a text in lower case: one of these stands in it.
pub open spec fn has_english_words_lowered(s: Seq<char>) -> bool {
    ||| has_part(s, "answer in english"@)
    ||| has_part(s, "use english"@)
}

/// A text has one of the words exactly where one of these stands in it.
pub proof fn law_english_words_lowered(s: Seq<char>)
    ensures
        has_any(s, english_words_lowered()) == has_english_words_lowered(s),
{
    let keys = english_words_lowered();
    assert(keys.len() == 2);
    assert(keys[0] == "answer in english"@);
    assert(keys[1] == "use english"@);
    if has_any(s, keys) {
        let k = choose|k: int| 0 <= k < keys.len() && has_part(s, #[trigger] keys[k]);
        assert(k == 0 || k == 1);
    }
}

/// The request words of a text: one of these stands in it.
pub open spec fn has_request_words(s: Seq<char>) -> bool {
    ||| has_part(s, "请你"@)
    ||| has_part(s, "希望你"@)
    ||| has_part(s, "以后"@)
    ||| has_part(s, "回复时"@)
    ||| has_part(s, "别"@)
    ||| has_part(s, "不要"@)
}

/// A text has one of the words exactly where one of these stands in it.
pub proof fn law_request_words(s: Seq<char>)
    ensures
        has_any(s, request_words()) == has_request_words(s),
{
    let keys = request_words();
    assert(keys.len() == 6);
    assert(keys[0] == "请你"@);
    assert(keys[1] == "希望你"@);
    assert(keys[2] == "以后"@);
    assert(keys[3] == "回复时"@);
    assert(keys[4] == "别"@);
    assert(keys[5] == "不要"@);
    if has_any(s, keys) {
        let k = choose|k: int| 0 <= k < keys.len() && has_part(s, #[trigger] keys[k]);
        assert(k == 0 || k == 1 || k == 2 || k == 3 || k == 4 || k == 5);
    }
}

/// The request words of a text in lower case: one of these stands in it.
pub open spec fn has_request_words_lowered(s: Seq<char>) -> bool {
    ||| has_part(s, "please"@)
    ||| has_part(s, "from now on"@)
    ||| has_part(s, "reply"@)
    ||| has_part(s, "do not"@)
}

/// A text has one of the words exactly where one of these stands in it.
pub proof fn law_request_words_lowered(s: Seq<char>)
    ensures
        has_any(s, request_words_lowered()) == has_request_words_lowered(s),
{
    let keys = request_words_lowered();
    assert(keys.len() == 4);
    assert(keys[0] == "please"@);
    assert(keys[1] == "from now on"@);
    assert(keys[2] == "reply"@);
    assert(keys[3] == "do not"@);
    if has_any(s, keys) {
        let k = choose|k: int| 0 <= k < keys.len() && has_part(s, #[trigger] keys[k]);
        assert(k == 0 || k == 1 || k == 2 || k == 3);
    }
}

/// The concise words of a text: one of these stands in it.
pub open spec fn has_concise_words(s: Seq<char>) -> bool {
    ||| has_part(s, "简洁"@)
    ||| has_part(s, "简短"@)
    ||| has_part(s, "短一点"@)
    ||| has_part(s, "直接给结论"@)
}

/// A text has one of the words exactly where one of these stands in it.
pub proof fn law_concise_words(s: Seq<char>)
    ensures
        has_any(s, concise_words()) == has_concise_words(s),
{
    let keys = concise_words();
    assert(keys.len() == 4);
    assert(keys[0] == "简洁"@);
    assert(keys[1] == "简短"@);
    assert(keys[2] == "短一点"@);
    assert(keys[3] == "直接给结论"@);
    if has_any(s, keys) {
        let k = choose|k: int| 0 <= k < keys.len() && has_part(s, #[trigger] keys[k]);
        assert(k == 0 || k == 1 || k == 2 || k == 3);
    }
}

/// The concise words of a text in lower case: one of these stands in it.
pub open spec fn has_concise_words_lowered(s: Seq<char>) -> bool {
    ||| has_part(s, "concise"@)
    ||| has_part(s, "brief"@)
    ||| has_part(s, "short answer"@)
}

/// A text has one of the words exactly where one of these stands in it.
pub proof fn law_concise_words_lowered(s: Seq<char>)
    ensures
        has_any(s, concise_words_lowered()) == has_concise_words_lowered(s),
{
    let keys = concise_words_lowered();
    assert(keys.len() == 3);
    assert(keys[0] == "concise"@);
    assert(keys[1] == "brief"@);
    assert(keys[2] == "short answer"@);
    if has_any(s, keys) {
        let k = choose|k: int| 0 <= k < keys.len() && has_part(s, #[trigger] keys[k]);
        assert(k == 0 || k == 1 || k == 2);
    }
}

/// The detailed words of a text: one of these stands in it.
pub open spec fn has_detailed_words(s: Seq<char>) -> bool {
    ||| has_part(s, "详细"@)
    ||| has_part(s, "展开"@)
    ||| has_part(s, "多讲点"@)
    ||| has_part(s, "详细一点"@)
}

/// A text has one of the words exactly where one of these stands in it.
pub proof fn law_detailed_words(s: Seq<char>)
    ensures
        has_any(s, detailed_words()) == has_detailed_words(s),
{
    let keys = detailed_words();
    assert(keys.len() == 4);
    assert(keys[0] == "详细"@);
    assert(keys[1] == "展开"@);
    assert(keys[2] == "多讲点"@);
    assert(keys[3] == "详细一点"@);
    if has_any(s, keys) {
        let k = choose|k: int| 0 <= k < keys.len() && has_part(s, #[trigger] keys[k]);
        assert(k == 0 || k == 1 || k == 2 || k == 3);
    }
}

/// The detailed words of a text in lower case: one of these stands in it.
pub open spec fn has_detailed_words_lowered(s: Seq<char>) -> bool {
    ||| has_part(s, "detailed"@)
    ||| has_part(s, "step by step"@)
    ||| has_part(s, "more detail"@)
}

/// A text has one of the words exactly where one of these stands in it.
pub proof fn law_detailed_words_lowered(s: Seq<char>)
    ensures
        has_any(s, detailed_words_lowered()) == has_detailed_words_lowered(s),
{
    let keys = detailed_words_lowered();
    assert(keys.len() == 3);
    assert(keys[0] == "detailed"@);
    assert(keys[1] == "step by step"@);
    assert(keys[2] == "more detail"@);
    if has_any(s, keys) {
        let k = choose|k: int| 0 <= k < keys.len() && has_part(s, #[trigger] keys[k]);
        assert(k == 0 || k == 1 || k == 2);
    }
}

/// The direct words of a text: one of these stands in it.
pub open spec fn has_direct_words(s: Seq<char>) -> bool {
    ||| has_part(s, "直接"@)
    ||| has_part(s, "别客套"@)
    ||| has_part(s, "直说"@)
    ||| has_part(s, "不用安慰"@)
}

/// A text has one of the words exactly where one of these stands in it.
pub proof fn law_direct_words(s: Seq<char>)
    ensures
        has_any(s, direct_words()) == has_direct_words(s),
{
    let keys = direct_words();
    assert(keys.len() == 4);
    assert(keys[0] == "直接"@);
    assert(keys[1] == "别客套"@);
    assert(keys[2] == "直说"@);
    assert(keys[3] == "不用安慰"@);
    if has_any(s, keys) {
        let k = choose|k: int| 0 <= k < keys.len() && has_part(s, #[trigger] keys[k]);
        assert(k == 0 || k == 1 || k == 2 || k == 3);
    }
}

/// The direct words of a text in lower case: one of these stands in it.
pub open spec fn has_direct_words_lowered(s: Seq<char>) -> bool {
    ||| has_part(s, "direct"@)
    ||| has_part(s, "be blunt"@)
    ||| has_part(s, "straight to point"@)
}

/// A text has one of the words exactly where one of these stands in it.
pub proof fn law_direct_words_lowered(s: Seq<char>)
    ensures
        has_any(s, direct_words_lowered()) == has_direct_words_lowered(s),
{
    let keys = direct_words_lowered();
    assert(keys.len() == 3);
    assert(keys[0] == "direct"@);
    assert(keys[1] == "be blunt"@);
    assert(keys[2] == "straight to point"@);
    if has_any(s, keys) {
        let k = choose|k: int| 0 <= k < keys.len() && has_part(s, #[trigger] keys[k]);
        assert(k == 0 || k == 1 || k == 2);
    }
}

/// The gentle words of a text: one of these stands in it.
pub open spec fn has_gentle_words(s: Seq<char>) -> bool {
    ||| has_part(s, "温和"@)
    ||| has_part(s, "友好"@)
    ||| has_part(s, "鼓励"@)
    ||| has_part(s, "耐心"@)
}

/// A text has one of the words exactly where one of these stands in it.
pub proof fn law_gentle_words(s: Seq<char>)
    ensures
        has_any(s, gentle_words()) == has_gentle_words(s),
{
    let keys = gentle_words();
    assert(keys.len() == 4);
    assert(keys[0] == "温和"@);
    assert(keys[1] == "友好"@);
    assert(keys[2] == "鼓励"@);
    assert(keys[3] == "耐心"@);
    if has_any(s, keys) {
        let k = choose|k: int| 0 <= k < keys.len() && has_part(s, #[trigger] keys[k]);
        assert(k == 0 || k == 1 || k == 2 || k == 3);
    }
}

/// The gentle words of a text in lower case: one of these stands in it.
pub open spec fn has_gentle_words_lowered(s: Seq<char>) -> bool {
    ||| has_part(s, "gentle"@)
    ||| has_part(s, "friendly"@)
    ||| has_part(s, "encourage"@)
    ||| has_part(s, "patient"@)
}

/// A text has one of the words exactly where one of these stands in it.
pub proof fn law_gentle_words_lowered(s: Seq<char>)
    ensures
        has_any(s, gentle_words_lowered()) == has_gentle_words_lowered(s),
{
    let keys = gentle_words_lowered();
    assert(keys.len() == 4);
    assert(keys[0] == "gentle"@);
    assert(keys[1] == "friendly"@);
    assert(keys[2] == "encourage"@);
    assert(keys[3] == "patient"@);
    if has_any(s, keys) {
        let k = choose|k: int| 0 <= k < keys.len() && has_part(s, #[trigger] keys[k]);
        assert(k == 0 || k == 1 || k == 2 || k == 3);
    }
}

/// The technical words of a text: one of these stands in it.
pub open spec fn has_technical_words(s: Seq<char>) -> bool {
    ||| has_part(s, "技术细节"@)
    ||| has_part(s, "术语"@)
    ||| has_part(s, "代码"@)
    ||| has_part(s, "专业点"@)
}

/// A text has one of the words exactly where one of these stands in it.
pub proof fn law_technical_words(s: Seq<char>)
    ensures
        has_any(s, technical_words()) == has_technical_words(s),
{
    let keys = technical_words();
    assert(keys.len() == 4);
    assert(keys[0] == "技术细节"@);
    assert(keys[1] == "术语"@);
    assert(keys[2] == "代码"@);
    assert(keys[3] == "专业点"@);
    if has_any(s, keys) {
        let k = choose|k: int| 0 <= k < keys.len() && has_part(s, #[trigger] keys[k]);
        assert(k == 0 || k == 1 || k == 2 || k == 3);
    }
}

/// The technical words of a text in lower case: one of these stands in it.
pub open spec fn has_technical_words_lowered(s: Seq<char>) -> bool {
    ||| has_part(s, "technical"@)
    ||| has_part(s, "terminology"@)
    ||| has_part(s, "code-level"@)
    ||| has_part(s, "professional"@)
}

/// A text has one of the words exactly where one of these stands in it.
pub proof fn law_technical_words_lowered(s: Seq<char>)
    ensures
        has_any(s, technical_words_lowered()) == has_technical_words_lowered(s),
{
    let keys = technical_words_lowered();
    assert(keys.len() == 4);
    assert(keys[0] == "technical"@);
    assert(keys[1] == "terminology"@);
    assert(keys[2] == "code-level"@);
    assert(keys[3] == "professional"@);
    if has_any(s, keys) {
        let k = choose|k: int| 0 <= k < keys.len() && has_part(s, #[trigger] keys[k]);
        assert(k == 0 || k == 1 || k == 2 || k == 3);
    }
}

/// The plain words of a text: one of these stands in it.
pub open spec fn has_plain_words(s: Seq<char>) -> bool {
    ||| has_part(s, "通俗"@)
    ||| has_part(s, "简单点"@)
    ||| has_part(s, "小白"@)
    ||| has_part(s, "听不懂"@)
}

/// A text has one of the words exactly where one of these stands in it.
pub proof fn law_plain_words(s: Seq<char>)
    ensures
        has_any(s, plain_words()) == has_plain_words(s),
{
    let keys = plain_words();
    assert(keys.len() == 4);
    assert(keys[0] == "通俗"@);
    assert(keys[1] == "简单点"@);
    assert(keys[2] == "小白"@);
    assert(keys[3] == "听不懂"@);
    if has_any(s, keys) {
        let k = choose|k: int| 0 <= k < keys.len() && has_part(s, #[trigger] keys[k]);
        assert(k == 0 || k == 1 || k == 2 || k == 3);
    }
}

/// The plain words of a text in lower case: one of these stands in it.
pub open spec fn has_plain_words_lowered(s: Seq<char>) -> bool {
    ||| has_part(s, "plain language"@)
    ||| has_part(s, "simple"@)
    ||| has_part(s, "easy to understand"@)
}

/// A text has one of the words exactly where one of these stands in it.
pub proof fn law_plain_words_lowered(s: Seq<char>)
    ensures
        has_any(s, plain_words_lowered()) == has_plain_words_lowered(s),
{
    let keys = plain_words_lowered();
    assert(keys.len() == 3);
    assert(keys[0] == "plain language"@);
    assert(keys[1] == "simple"@);
    assert(keys[2] == "easy to understand"@);
    if has_any(s, keys) {
        let k = choose|k: int| 0 <= k < keys.len() && has_part(s, #[trigger] keys[k]);
        assert(k == 0 || k == 1 || k == 2);
    }
}

} // verus!
