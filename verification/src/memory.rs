//! What is remembered of a user's words, and how memories are matched, merged
//! and rated.
use vstd::prelude::*;
use crate::text::{
    char_count, char_in, chars_of, clip_chars, clipped, contains, contains_chars, find_chars,
    flatten_spaces, flattened, found_from, has_any, has_part, is_filled, join, joined, lowercase,
    pieces, split_any, strs, sub_chars, text_eq, text_of, texts, trim, trim_chars, trimmed,
};
use crate::words::{
    aim_words, global_words, global_words_lowered, lasting_words, mentions_aim_words,
    mentions_global_words, mentions_global_words_lowered, mentions_lasting_words,
    mentions_remember_words, mentions_remember_words_lowered, mentions_utmost_words, remember_words,
    remember_words_lowered, utmost_words,
};

verus! {

// ---------------------------------------------------------------------------
// Matching and merging
// ---------------------------------------------------------------------------

/// A character that matching overlooks.
pub open spec fn is_match_noise(c: char) -> bool {
    match_noise().contains(c)
}

/// The characters that matching overlooks.
pub open spec fn match_noise() -> Seq<char> {
    seq![
        ' ', '\n', '\t', '，', ',', '。', '.', '！', '!', '？', '?', ':', '：', ';', '；', '"',
        '\'', '`',
    ]
}

/// A lowered text without what matching overlooks.
pub open spec fn without_noise(lowered: Seq<char>) -> Seq<char> {
    lowered.filter(|c: char| !is_match_noise(c))
}

/// A text as matching sees it.
pub open spec fn matchable(s: Seq<char>) -> Seq<char> {
    without_noise(lowercase(s))
}

/// A lowered text without what matching overlooks.
pub fn drop_match_noise(lowered: &str) -> (r: String)
    ensures
        r@ == without_noise(lowered@),
{
    let noise: [char; 18] = [
        ' ', '\n', '\t', '，', ',', '。', '.', '！', '!', '？', '?', ':', '：', ';', '；', '"',
        '\'', '`',
    ];
    assert(noise@ =~= match_noise());
    let v = chars_of(lowered);
    let mut r = String::new();
    let ghost keep = |c: char| !is_match_noise(c);
    proof {
        reveal(Seq::filter);
    }
    for i in 0..v.len()
        invariant
            v@ == lowered@,
            noise@ == match_noise(),
            keep == (|c: char| !is_match_noise(c)),
            r@ == lowered@.take(i as int).filter(keep),
    {
        proof {
            reveal(Seq::filter);
            assert(lowered@.take(i + 1).drop_last() =~= lowered@.take(i as int));
        }
        if !char_in(v[i], &noise) {
            r.push(v[i]);
        }
    }
    assert(lowered@.take(v.len() as int) =~= lowered@);
    r
}

/// A text as matching sees it.
pub fn normalize_for_match(input: &str) -> (r: String)
    ensures
        r@ == matchable(input@),
{
    drop_match_noise(&input.to_lowercase())
}

/// How many characters of `a` also stand in `b`.
pub open spec fn shared_count(a: Seq<char>, b: Seq<char>) -> nat {
    a.filter(|c: char| b.contains(c)).len()
}

/// How well two texts without noise match: nothing where one is empty, most
/// where one is a part of the other, else by the characters they share.
pub open spec fn overlap(a: Seq<char>, b: Seq<char>) -> int {
    if a.len() == 0 || b.len() == 0 {
        0
    } else if has_part(b, a) || has_part(a, b) {
        12
    } else if shared_count(a, b) < 10 {
        shared_count(a, b) as int
    } else {
        10
    }
}

/// How well two texts match.
pub open spec fn text_overlap(a: Seq<char>, b: Seq<char>) -> int {
    overlap(matchable(a), matchable(b))
}

/// How well two texts without noise match.
pub fn score_matchable(na: &str, nb: &str) -> (r: i64)
    ensures
        r == overlap(na@, nb@),
        0 <= r <= 12,
{
    let a = chars_of(na);
    let b = chars_of(nb);
    if a.len() == 0 || b.len() == 0 {
        return 0;
    }
    if contains_chars(&b, &a) || contains_chars(&a, &b) {
        return 12;
    }
    let ghost shared = |c: char| nb@.contains(c);
    let mut n: usize = 0;
    proof {
        reveal(Seq::filter);
    }
    for i in 0..a.len()
        invariant
            a@ == na@,
            b@ == nb@,
            shared == (|c: char| nb@.contains(c)),
            n <= i,
            n == na@.take(i as int).filter(shared).len(),
    {
        proof {
            reveal(Seq::filter);
            assert(na@.take(i + 1).drop_last() =~= na@.take(i as int));
        }
        if char_in(a[i], &b) {
            n = n + 1;
        }
    }
    assert(na@.take(a.len() as int) =~= na@);
    if n < 10 {
        n as i64
    } else {
        10
    }
}

/// How well two texts match.
pub fn score_text_overlap(a: &str, b: &str) -> (r: i64)
    ensures
        r == text_overlap(a@, b@),
        0 <= r <= 12,
{
    let na = normalize_for_match(a);
    let nb = normalize_for_match(b);
    score_matchable(&na, &nb)
}

/// The words that say nothing worth remembering.
pub open spec fn small_talk() -> Seq<Seq<char>> {
    seq![
        "ok"@, "嗯"@, "好的"@, "谢谢"@, "收到"@, "知道了"@, "yes"@, "fine"@, "great"@, "lol"@,
    ]
}

/// Whether a trimmed, lowered text is hardly worth remembering.
pub open spec fn is_low_value(lowered: Seq<char>) -> bool {
    lowered.len() <= 8 || small_talk().contains(lowered)
}

/// Whether a text is hardly worth remembering.
pub open spec fn low_value(s: Seq<char>) -> bool {
    is_low_value(lowercase(trimmed(s)))
}

/// Whether a trimmed, lowered text is hardly worth remembering.
pub fn low_value_lowered(t: &str) -> (r: bool)
    ensures
        r == is_low_value(t@),
{
    if char_count(t) <= 8 {
        return true;
    }
    let low_hits: [&str; 10] = [
        "ok", "嗯", "好的", "谢谢", "收到", "知道了", "yes", "fine", "great", "lol",
    ];
    assert(strs(low_hits@) =~= small_talk());
    for i in 0..low_hits.len()
        invariant
            strs(low_hits@) == small_talk(),
            forall|k: int| 0 <= k < i ==> small_talk()[k] != t@,
    {
        assert(strs(low_hits@)[i as int] == low_hits@[i as int]@);
        if text_eq(t, low_hits[i]) {
            assert(small_talk()[i as int] == t@);
            return true;
        }
    }
    false
}

/// Whether a text is hardly worth remembering.
pub fn looks_low_value_memory(text: &str) -> (r: bool)
    ensures
        r == low_value(text@),
{
    low_value_lowered(&trim(text).to_lowercase())
}

/// A remembered text with a new one worked into it.
pub open spec fn merged_content(old_text: Seq<char>, new_text: Seq<char>) -> Seq<char> {
    let o = trimmed(old_text);
    let n = trimmed(new_text);
    clipped(
        if o.len() == 0 {
            n
        } else if n.len() == 0 || has_part(o, n) {
            o
        } else if has_part(n, o) {
            n
        } else {
            o + "；"@ + n
        },
        400,
    )
}

/// A remembered text with a new one worked into it.
pub fn merge_memory_content(old_text: &str, new_text: &str) -> (r: String)
    ensures
        r@ == merged_content(old_text@, new_text@),
{
    let o = trim(old_text);
    let n = trim(new_text);
    if o.as_str().is_empty() {
        return clip_chars(&n, 400);
    }
    if n.as_str().is_empty() {
        return clip_chars(&o, 400);
    }
    if contains(&o, &n) {
        return clip_chars(&o, 400);
    }
    if contains(&n, &o) {
        return clip_chars(&n, 400);
    }
    let mut both = o;
    both.append("；");
    both.append(&n);
    clip_chars(&both, 400)
}

// ---------------------------------------------------------------------------
// Lines and sentences
// ---------------------------------------------------------------------------

/// The characters that end a line of a user's text.
pub open spec fn line_ends() -> Seq<char> {
    seq!['\n', '。', '；', '，', ';', '.', '!', '?', '！', '？']
}

/// The trimmed pieces of a text that have at least ten characters.
pub open spec fn long_lines(s: Seq<char>) -> Seq<Seq<char>> {
    pieces(s, |c: char| line_ends().contains(c)).map_values(
        |p: Seq<char>| trimmed(p),
    ).filter(|p: Seq<char>| p.len() >= 10)
}

/// The trimmed pieces of a text that have at least ten characters.
pub fn split_lines(text: &str) -> (r: Vec<String>)
    ensures
        texts(r@) == long_lines(text@),
{
    let seps: [char; 10] = ['\n', '。', '；', '，', ';', '.', '!', '?', '！', '？'];
    assert(seps@ =~= line_ends());
    let parts = split_any(text, &seps);
    let ghost all = texts(parts@).map_values(|p: Seq<char>| trimmed(p));
    let ghost long = |p: Seq<char>| p.len() >= 10;
    assert(pieces(text@, |c: char| seps@.contains(c)) == pieces(
        text@,
        |c: char| line_ends().contains(c),
    ));
    let mut r: Vec<String> = Vec::new();
    proof {
        reveal(Seq::filter);
    }
    for i in 0..parts.len()
        invariant
            all == texts(parts@).map_values(|p: Seq<char>| trimmed(p)),
            long == (|p: Seq<char>| p.len() >= 10),
            texts(r@) == all.take(i as int).filter(long),
    {
        proof {
            reveal(Seq::filter);
            assert(all.take(i + 1).drop_last() =~= all.take(i as int));
        }
        let line = trim(&parts[i]);
        if char_count(&line) >= 10 {
            let ghost next = texts(r@).push(line@);
            r.push(line);
            assert(texts(r@) =~= next);
        }
    }
    assert(all.take(parts@.len() as int) =~= all);
    r
}

/// The character ends a line.
pub open spec fn ends_line() -> spec_fn(char) -> bool {
    |c: char| c == '\n'
}

/// Texts without the white space around them.
pub open spec fn trimming() -> spec_fn(Seq<char>) -> Seq<char> {
    |p: Seq<char>| trimmed(p)
}

/// The trimmed lines of a text that are not blank.
pub open spec fn filled_lines(s: Seq<char>) -> Seq<Seq<char>> {
    pieces(s, ends_line()).map_values(trimming()).filter(is_filled())
}

/// The trimmed lines of a text that are not blank.
pub fn split_filled_lines(text: &str) -> (r: Vec<String>)
    ensures
        texts(r@) == filled_lines(text@),
{
    let seps: [char; 1] = ['\n'];
    let parts = split_any(text, &seps);
    assert((|c: char| seps@.contains(c)) =~= ends_line()) by {
        assert forall|c: char| seps@.contains(c) == (c == '\n') by {
            assert(seps@[0] == '\n');
        }
    }
    let ghost all = texts(parts@).map_values(trimming());
    let ghost full = is_filled();
    let mut r: Vec<String> = Vec::new();
    proof {
        reveal(Seq::filter);
    }
    for i in 0..parts.len()
        invariant
            all == texts(parts@).map_values(trimming()),
            full == is_filled(),
            texts(r@) == all.take(i as int).filter(full),
    {
        proof {
            reveal(Seq::filter);
            assert(all.take(i + 1).drop_last() =~= all.take(i as int));
        }
        let line = trim(&parts[i]);
        if !line.as_str().is_empty() {
            let ghost next = texts(r@).push(line@);
            r.push(line);
            assert(texts(r@) =~= next);
        }
    }
    assert(all.take(parts@.len() as int) =~= all);
    r
}

/// Whether a text is one of a list.
pub fn text_in(list: &Vec<String>, t: &str) -> (r: bool)
    ensures
        r == texts(list@).contains(t@),
{
    for i in 0..list.len()
        invariant
            forall|k: int| 0 <= k < i ==> texts(list@)[k] != t@,
    {
        if text_eq(&list[i], t) {
            assert(texts(list@)[i as int] == t@);
            return true;
        }
    }
    false
}

/// The last `max` elements.
pub open spec fn newest<A>(s: Seq<A>, max: int) -> Seq<A> {
    if s.len() > max {
        s.skip(s.len() - max)
    } else {
        s
    }
}

/// A list of lines with one more, which it does not hold twice; of too many
/// lines the oldest go.
pub open spec fn with_line(base: Seq<char>, line: Seq<char>, max_lines: int) -> Seq<char> {
    let clean = flattened(trimmed(line));
    let items = filled_lines(base);
    if clean.len() == 0 {
        base
    } else if items.contains(clean) {
        joined(items, "\n"@)
    } else {
        joined(newest(items.push(clean), max_lines), "\n"@)
    }
}

/// A list of lines with one more, which it does not hold twice.
pub fn add_unique_line(base: &str, line: &str, max_lines: usize) -> (r: String)
    ensures
        r@ == with_line(base@, line@, max_lines as int),
{
    let clean = flatten_spaces(&trim(line));
    if clean.as_str().is_empty() {
        return base.to_owned();
    }
    let mut items = split_filled_lines(base);
    if text_in(&items, &clean) {
        return join(&items, "\n");
    }
    let ghost all = texts(items@).push(clean@);
    items.push(clean);
    assert(texts(items@) =~= all);
    if items.len() > max_lines {
        let start = items.len() - max_lines;
        let mut kept: Vec<String> = Vec::new();
        for i in start..items.len()
            invariant
                start <= i <= items.len(),
                texts(items@) == all,
                texts(kept@) == all.subrange(start as int, i as int),
        {
            let ghost next = texts(kept@).push(items@[i as int]@);
            kept.push(items[i].clone());
            assert(texts(kept@) =~= next);
            assert(next =~= all.subrange(start as int, i + 1));
        }
        assert(all.subrange(start as int, all.len() as int) =~= all.skip(start as int));
        items = kept;
    }
    join(&items, "\n")
}

/// An ASCII letter.
pub open spec fn is_latin(c: char) -> bool {
    'A' <= c <= 'Z' || 'a' <= c <= 'z'
}

/// A character of the block of Chinese ideographs.
pub open spec fn is_han(c: char) -> bool {
    '\u{4e00}' <= c <= '\u{9fff}'
}

/// The language a text is mostly written in.
pub open spec fn language_of(s: Seq<char>) -> Seq<char> {
    let en = s.filter(|c: char| is_latin(c)).len();
    let zh = s.filter(|c: char| is_han(c)).len();
    if zh > 2 * en {
        "zh"@
    } else if en > 2 * zh {
        "en"@
    } else {
        "mixed"@
    }
}

/// The language a text is mostly written in.
pub fn detect_language_style(text: &str) -> (r: &'static str)
    ensures
        r@ == language_of(text@),
{
    let v = chars_of(text);
    let ghost latin = |c: char| is_latin(c);
    let ghost han = |c: char| is_han(c);
    let mut zh: usize = 0;
    let mut en: usize = 0;
    proof {
        reveal(Seq::filter);
    }
    for i in 0..v.len()
        invariant
            v@ == text@,
            latin == (|c: char| is_latin(c)),
            han == (|c: char| is_han(c)),
            en <= i,
            zh <= i,
            en == text@.take(i as int).filter(latin).len(),
            zh == text@.take(i as int).filter(han).len(),
    {
        proof {
            reveal(Seq::filter);
            assert(text@.take(i + 1).drop_last() =~= text@.take(i as int));
        }
        let ch = v[i];
        if ('A' <= ch && ch <= 'Z') || ('a' <= ch && ch <= 'z') {
            en = en + 1;
        } else if '\u{4e00}' <= ch && ch <= '\u{9fff}' {
            zh = zh + 1;
        }
    }
    assert(text@.take(v.len() as int) =~= text@);
    if (zh as u128) > 2 * (en as u128) {
        "zh"
    } else if (en as u128) > 2 * (zh as u128) {
        "en"
    } else {
        "mixed"
    }
}

/// The characters that end a name.
pub open spec fn name_ends() -> Seq<char> {
    seq![',', '。', '，', '.', '!', '！', '?', '？', '\n', ' ']
}

/// The word that follows the first `key` in a text.
pub open spec fn word_after(s: Seq<char>, key: Seq<char>) -> Option<Seq<char>> {
    match found_from(s, key, 0) {
        None => None,
        Some(i) => {
            let rest = trimmed(s.skip(i + key.len()));
            let cut = trimmed(pieces(rest, |c: char| name_ends().contains(c))[0]);
            if rest.len() == 0 || cut.len() == 0 {
                None
            } else {
                Some(clipped(cut, 24))
            }
        },
    }
}

/// There is at least one piece.
pub proof fn lemma_pieces_nonempty(s: Seq<char>, sep: spec_fn(char) -> bool)
    ensures
        pieces(s, sep).len() > 0,
    decreases s.len(),
{
    if s.len() > 0 {
        lemma_pieces_nonempty(s.drop_last(), sep);
    }
}

/// The word that follows the first `key` in a text.
pub fn try_extract_after(text: &str, key: &str) -> (r: Option<String>)
    ensures
        crate::text::opt_text(r) == word_after(text@, key@),
{
    let v = chars_of(text);
    let k = chars_of(key);
    match find_chars(&v, &k, 0) {
        None => None,
        Some(i) => {
            proof {
                crate::text::lemma_found_from(v@, k@, 0);
            }
            let from = i + k.len();
            let tail = sub_chars(&v, from, v.len());
            assert(tail@ =~= text@.skip(i + key@.len()));
            let rest = trim_chars(&tail);
            if rest.len() == 0 {
                return None;
            }
            let seps: [char; 10] = [',', '。', '，', '.', '!', '！', '?', '？', '\n', ' '];
            assert(seps@ =~= name_ends());
            let parts = split_any(&text_of(&rest), &seps);
            proof {
                lemma_pieces_nonempty(rest@, |c: char| seps@.contains(c));
                assert(texts(parts@).len() == parts@.len());
                assert(texts(parts@)[0] == parts@[0]@);
            }
            let cut = trim(&parts[0]);
            if cut.as_str().is_empty() {
                None
            } else {
                Some(clip_chars(&cut, 24))
            }
        },
    }
}

// ---------------------------------------------------------------------------
// What a message asks to remember
// ---------------------------------------------------------------------------

/// Whether a line is to be remembered in every conversation.
pub open spec fn is_for_all(line: Seq<char>, lower: Seq<char>) -> bool {
    has_any(line, global_words()) || has_any(lower, global_words_lowered())
}

/// Whether a line is to be remembered in every conversation.
pub fn should_store_as_global_memory(line: &str, lower: &str) -> (r: bool)
    ensures
        r == is_for_all(line@, lower@),
{
    mentions_global_words(line) || mentions_global_words_lowered(lower)
}

/// Whether a message asks to remember something.
pub open spec fn asks_to_remember(text: Seq<char>, lower: Seq<char>) -> bool {
    has_any(text, remember_words()) || has_any(lower, remember_words_lowered())
}

/// Whether a message asks to remember something.
pub fn should_extract(text: &str, lower: &str) -> (r: bool)
    ensures
        r == asks_to_remember(text@, lower@),
{
    mentions_remember_words(text) || mentions_remember_words_lowered(lower)
}

/// How important a line is.
pub open spec fn line_importance(line: Seq<char>, lower: Seq<char>) -> int {
    if has_any(line, utmost_words()) || has_part(lower, "must"@) {
        9
    } else if has_any(line, lasting_words()) || has_part(lower, "long-term"@) {
        8
    } else if has_any(line, aim_words()) || has_part(lower, "goal"@) || has_part(lower, "plan"@) {
        7
    } else {
        6
    }
}

/// How important a line is.
pub fn rate_line(line: &str, lower: &str) -> (r: i64)
    ensures
        r == line_importance(line@, lower@),
{
    if mentions_utmost_words(line) || contains(lower, "must") {
        9
    } else if mentions_lasting_words(line) || contains(lower, "long-term") {
        8
    } else if mentions_aim_words(line) || contains(lower, "goal") || contains(lower, "plan") {
        7
    } else {
        6
    }
}

/// Something to remember.
#[verifier::ext_equal]
#[derive(Debug)]
pub struct Candidate<S = String> {
    /// What to remember.
    pub content: S,
    /// How important it is.
    pub importance: i64,
    /// Whether it holds in every conversation.
    pub global: bool,
}

impl View for Candidate<String> {
    type V = Candidate<Seq<char>>;

    open spec fn view(&self) -> Candidate<Seq<char>> {
        Candidate { content: self.content@, importance: self.importance, global: self.global }
    }
}

/// What a line gives to remember, when `lower` is the line in lower case.
pub open spec fn candidate_of(line: Seq<char>, lower: Seq<char>) -> Candidate<Seq<char>> {
    Candidate {
        content: line,
        importance: line_importance(line, lower) as i64,
        global: is_for_all(line, lower),
    }
}

/// What a line gives to remember, when `lower` is the line in lower case.
pub fn candidate(line: &str, lower: &str) -> (r: Candidate)
    ensures
        r@ == candidate_of(line@, lower@),
{
    Candidate {
        content: line.to_owned(),
        importance: rate_line(line, lower),
        global: should_store_as_global_memory(line, lower),
    }
}

/// What a message gives to remember, when `lower` is the message in lower case:
/// nothing unless it is long enough and asks for it, else its first eight long
/// lines.
pub open spec fn candidates_of(text: Seq<char>, lower: Seq<char>) -> Seq<Candidate<Seq<char>>> {
    if text.len() < 10 || !asks_to_remember(text, lower) {
        Seq::empty()
    } else {
        clipped_seq(long_lines(text), 8).map_values(
            |line: Seq<char>| candidate_of(line, lowercase(line)),
        )
    }
}

/// The first `max` elements.
pub open spec fn clipped_seq<A>(s: Seq<A>, max: int) -> Seq<A> {
    if s.len() <= max {
        s
    } else {
        s.take(max)
    }
}

/// What a message gives to remember, when `lower` is the message in lower case.
pub fn candidates(text: &str, lower: &str) -> (r: Vec<Candidate>)
    ensures
        crate::sorting::views(r@) == candidates_of(text@, lower@),
{
    let mut r: Vec<Candidate> = Vec::new();
    if char_count(text) < 10 || !should_extract(text, lower) {
        assert(crate::sorting::views(r@) =~= Seq::empty());
        return r;
    }
    let lines = split_lines(text);
    let n: usize = if lines.len() <= 8 {
        lines.len()
    } else {
        8
    };
    let ghost all = clipped_seq(long_lines(text@), 8).map_values(
        |line: Seq<char>| candidate_of(line, lowercase(line)),
    );
    assert(texts(lines@).len() == lines@.len());
    for i in 0..n
        invariant
            n <= lines.len(),
            n == all.len(),
            texts(lines@) == long_lines(text@),
            all == clipped_seq(long_lines(text@), 8).map_values(
                |line: Seq<char>| candidate_of(line, lowercase(line)),
            ),
            crate::sorting::views(r@) == all.take(i as int),
    {
        let lower_line = lines[i].to_lowercase();
        let c = candidate(&lines[i], &lower_line);
        let ghost next = crate::sorting::views(r@).push(c@);
        assert(texts(lines@)[i as int] == lines@[i as int]@);
        assert(all[i as int] == c@);
        r.push(c);
        assert(crate::sorting::views(r@) =~= next);
        assert(next =~= all.take(i + 1));
    }
    assert(all.take(n as int) =~= all);
    r
}

} // verus!
