//! What is taken from what the user says, and how texts are matched and merged.
use vstd::prelude::*;
use crate::db::memories::note_of;
use crate::db::soundness::{lemma_filter_keeps, lemma_filter_member};
use crate::files::lemma_trimmed_part;
use crate::learning::note_for;
use crate::memory::{
    candidates_of, line_ends, long_lines, low_value, match_noise, matchable, merged_content,
    overlap, shared_count, Candidate,
};
use crate::text::{
    has_part, law_trimmed_stays, lemma_one_piece, lemma_pieces_clean, lemma_pieces_in_two,
    lowercase, occurs_at, pieces, same_ignoring_ascii_case, trimmed,
};
use crate::word_laws::{
    has_aim_words, has_global_words, has_global_words_lowered, has_lasting_words,
    has_remember_words, has_remember_words_lowered, has_utmost_words, law_aim_words,
    law_global_words, law_global_words_lowered, law_lasting_words, law_remember_words,
    law_remember_words_lowered, law_utmost_words,
};

verus! {

// ---------------------------------------------------------------------------
// Asking to remember
// ---------------------------------------------------------------------------

/// The character ends a line or a sentence.
pub open spec fn ends_sentence(c: char) -> bool {
    ||| c == '\n'
    ||| c == '。'
    ||| c == '；'
    ||| c == '，'
    ||| c == ';'
    ||| c == '.'
    ||| c == '!'
    ||| c == '?'
    ||| c == '！'
    ||| c == '？'
}

/// `line` stands in the text between two ends of lines or sentences, and holds
/// none.
pub open spec fn is_sentence(text: Seq<char>, x: Seq<char>, line: Seq<char>, y: Seq<char>) -> bool {
    &&& text == x + line + y
    &&& x.len() == 0 || ends_sentence(x.last())
    &&& y.len() == 0 || ends_sentence(y[0])
    &&& forall|i: int| 0 <= i < line.len() ==> !ends_sentence(#[trigger] line[i])
}

/// A text between separators is one of the pieces.
pub proof fn lemma_is_piece(
    x: Seq<char>,
    line: Seq<char>,
    y: Seq<char>,
    sep: spec_fn(char) -> bool,
)
    requires
        x.len() == 0 || sep(x.last()),
        y.len() == 0 || sep(y[0]),
        forall|i: int| 0 <= i < line.len() ==> !sep(#[trigger] line[i]),
    ensures
        pieces(x + line + y, sep).contains(line),
{
    let none = Seq::<char>::empty();
    lemma_one_piece(line, sep);
    let tail = pieces(line + y, sep);
    if y.len() == 0 {
        assert(line + y =~= line);
        assert(tail[0] == line);
    } else {
        let head = line.push(y[0]);
        assert(head.drop_last() =~= line);
        assert(pieces(head, sep) =~= seq![line, none]);
        assert(line + y =~= head + y.skip(1));
        lemma_pieces_in_two(head, y.skip(1), sep);
        assert(pieces(head, sep).drop_last() =~= seq![line]);
        assert(tail[0] == line);
    }
    if x.len() == 0 {
        assert(x + line + y =~= line + y);
        assert(tail.contains(line));
    } else {
        lemma_pieces_in_two(x, line + y, sep);
        assert(x + line + y =~= x + (line + y));
        assert(pieces(x, sep).last() == none);
        assert(none + (line + y) =~= line + y);
        let front = pieces(x, sep).drop_last();
        let all = pieces(x + line + y, sep);
        assert(all == front + tail);
        assert(all[front.len() as int] == tail[0]);
    }
}

/// Every piece is a part of the text.
pub proof fn lemma_pieces_are_parts(s: Seq<char>, sep: spec_fn(char) -> bool, k: int)
    requires
        0 <= k < pieces(s, sep).len(),
    ensures
        has_part(s, pieces(s, sep)[k]),
    decreases s.len(),
{
    lemma_pieces_at_end(s, sep);
    if s.len() == 0 {
        assert(s.subrange(0, 0) =~= pieces(s, sep)[k]);
        assert(occurs_at(s, pieces(s, sep)[k], 0));
    } else {
        let front = s.drop_last();
        let before = pieces(front, sep);
        let all = pieces(s, sep);
        if k == all.len() - 1 {
            assert(occurs_at(s, all[k], s.len() - all[k].len()));
        } else {
            lemma_pieces_are_parts(front, sep, k);
            assert(all[k] == before[k]);
            let at = choose|at: int| occurs_at(front, before[k], at);
            assert(s.subrange(at, at + all[k].len()) =~= front.subrange(at, at + all[k].len()));
            assert(occurs_at(s, all[k], at));
        }
    }
}

/// The last piece stands at the end of the text.
proof fn lemma_pieces_at_end(s: Seq<char>, sep: spec_fn(char) -> bool)
    ensures
        pieces(s, sep).len() > 0,
        pieces(s, sep).last().len() <= s.len(),
        occurs_at(s, pieces(s, sep).last(), s.len() - pieces(s, sep).last().len()),
    decreases s.len(),
{
    let last = pieces(s, sep).last();
    if s.len() > 0 {
        lemma_pieces_at_end(s.drop_last(), sep);
        let before = pieces(s.drop_last(), sep).last();
        if sep(s.last()) {
            assert(s.subrange(s.len() as int, s.len() as int) =~= last);
        } else {
            let at = s.len() - last.len();
            assert(s.drop_last().subrange(at, at + before.len()) == before);
            assert(s.subrange(at, s.len() as int) =~= last);
        }
    } else {
        assert(s.subrange(0, 0) =~= last);
    }
}

proof fn lemma_line_ends(c: char)
    ensures
        line_ends().contains(c) == ends_sentence(c),
{
    let all = line_ends();
    assert(all.len() == 10);
    assert(all[0] == '\n' && all[1] == '。' && all[2] == '；' && all[3] == '，' && all[4] == ';');
    assert(all[5] == '.' && all[6] == '!' && all[7] == '?' && all[8] == '！' && all[9] == '？');
    if all.contains(c) {
        let k = all.index_of(c);
        assert(k == 0 || k == 1 || k == 2 || k == 3 || k == 4 || k == 5 || k == 6 || k == 7 || k
            == 8 || k == 9);
    }
}

/// A sentence with ten characters is one of the long lines.
proof fn lemma_long_line(text: Seq<char>, x: Seq<char>, line: Seq<char>, y: Seq<char>)
    requires
        is_sentence(text, x, line, y),
        trimmed(line).len() >= 10,
    ensures
        long_lines(text).contains(trimmed(line)),
{
    let sep = |c: char| line_ends().contains(c);
    if x.len() > 0 {
        lemma_line_ends(x.last());
    }
    if y.len() > 0 {
        lemma_line_ends(y[0]);
    }
    assert forall|i: int| 0 <= i < line.len() implies !sep(#[trigger] line[i]) by {
        lemma_line_ends(line[i]);
    }
    lemma_is_piece(x, line, y, sep);
    let parts = pieces(text, sep);
    let clean = parts.map_values(|p: Seq<char>| trimmed(p));
    let long = |p: Seq<char>| p.len() >= 10;
    let j = parts.index_of(line);
    assert(clean[j] == trimmed(line));
    let i = lemma_filter_keeps(clean, long, j);
    assert(long_lines(text)[i] == trimmed(line));
}

/// A message of ten characters that asks to be remembered, and has a sentence of
/// ten characters, gives something to remember: with up to eight long sentences
/// that sentence is there.
pub proof fn law_asking_gives_candidates(
    text: Seq<char>,
    lower: Seq<char>,
    x: Seq<char>,
    line: Seq<char>,
    y: Seq<char>,
)
    requires
        text.len() >= 10,
        has_remember_words(text) || has_remember_words_lowered(lower),
        is_sentence(text, x, line, y),
        trimmed(line).len() >= 10,
    ensures
        candidates_of(text, lower).len() > 0,
        candidates_of(text, lower).len() < 8 ==> exists|k: int|
            0 <= k < candidates_of(text, lower).len() && (#[trigger] candidates_of(
                text,
                lower,
            )[k]).content == trimmed(line),
{
    law_remember_words(text);
    law_remember_words_lowered(lower);
    lemma_long_line(text, x, line, y);
    let i = long_lines(text).index_of(trimmed(line));
    let all = candidates_of(text, lower);
    if all.len() < 8 {
        assert(all[i].content == trimmed(line));
    }
}

/// A message that is short or does not ask to be remembered gives nothing.
pub proof fn law_nothing_is_remembered_unasked(text: Seq<char>, lower: Seq<char>)
    requires
        text.len() < 10 || !(has_remember_words(text) || has_remember_words_lowered(lower)),
    ensures
        candidates_of(text, lower).len() == 0,
{
    law_remember_words(text);
    law_remember_words_lowered(lower);
}

/// What a message gives to remember is a sentence of it with at least ten
/// characters; there are at most eight. How important it is, and whether it
/// holds everywhere, follows from the words of the sentence.
pub proof fn law_candidates_are_sentences(text: Seq<char>, lower: Seq<char>, k: int)
    requires
        0 <= k < candidates_of(text, lower).len(),
    ensures
        candidates_of(text, lower).len() <= 8,
        ({
            let c = candidates_of(text, lower)[k];
            let small = lowercase(c.content);
            &&& has_part(text, c.content)
            &&& c.content.len() >= 10
            &&& trimmed(c.content) == c.content
            &&& forall|i: int| 0 <= i < c.content.len() ==> !ends_sentence(#[trigger] c.content[i])
            &&& c.global == (has_global_words(c.content) || has_global_words_lowered(small))
            &&& 6 <= c.importance <= 9
            &&& c.importance == 9 <==> has_utmost_words(c.content) || has_part(small, "must"@)
            &&& c.importance >= 8 <==> has_utmost_words(c.content) || has_part(small, "must"@)
                || has_lasting_words(c.content) || has_part(small, "long-term"@)
            &&& c.importance >= 7 <==> has_utmost_words(c.content) || has_part(small, "must"@)
                || has_lasting_words(c.content) || has_part(small, "long-term"@) || has_aim_words(
                c.content,
            ) || has_part(small, "goal"@) || has_part(small, "plan"@)
        }),
{
    let c = candidates_of(text, lower)[k];
    let small = lowercase(c.content);
    let sep = |c: char| line_ends().contains(c);
    let parts = pieces(text, sep);
    let clean = parts.map_values(|p: Seq<char>| trimmed(p));
    let long = |p: Seq<char>| p.len() >= 10;
    assert(c.content == long_lines(text)[k]);
    let j = lemma_filter_member(clean, long, k);
    assert(clean[j] == trimmed(parts[j]));
    law_trimmed_stays(parts[j]);
    lemma_trimmed_part(parts[j]);
    let (a, b) = choose|a: int, b: int|
        0 <= a <= b <= parts[j].len() && #[trigger] parts[j].subrange(a, b) == trimmed(parts[j]);
    lemma_pieces_are_parts(text, sep, j);
    let at = choose|at: int| occurs_at(text, parts[j], at);
    assert(text.subrange(at, at + parts[j].len()).subrange(a, b) =~= text.subrange(at + a, at + b));
    assert(occurs_at(text, c.content, at + a));
    lemma_pieces_clean(text, sep);
    assert forall|i: int| 0 <= i < c.content.len() implies !ends_sentence(
        #[trigger] c.content[i],
    ) by {
        assert(c.content[i] == parts[j][a + i]);
        assert(!sep(parts[j][a + i]));
        lemma_line_ends(c.content[i]);
    }
    law_global_words(c.content);
    law_global_words_lowered(small);
    law_utmost_words(c.content);
    law_lasting_words(c.content);
    law_aim_words(c.content);
}

/// A candidate is remembered as what it says: in every conversation where it is
/// meant so, else in the one in which it was said, with the message it came
/// from.
pub proof fn law_candidates_are_noted(
    c: Candidate<Seq<char>>,
    conversation_id: Seq<char>,
    source: Seq<char>,
)
    requires
        trimmed(c.content) == c.content,
        c.content.len() >= 10,
        matchable(c.content).len() > 0,
        trimmed(conversation_id) == conversation_id,
        conversation_id.len() > 0,
        trimmed(source) == source,
        source.len() > 0,
    ensures
        match note_for(c, Some(conversation_id), Some(source)) {
            Some(n) => {
                &&& n.text == c.content
                &&& n.scope == if c.global {
                    "global"@
                } else {
                    "conversation"@
                }
                &&& n.conversation_id == if c.global {
                    None
                } else {
                    Some(conversation_id)
                }
                &&& n.source_message_id == Some(source)
                &&& n.source_conversation_id == Some(conversation_id)
            },
            None => false,
        },
{
    lemma_scopes();
}

pub proof fn lemma_scopes()
    ensures
        crate::settings::scope_name("global"@) == "global"@,
        crate::settings::scope_name("conversation"@) == "conversation"@,
{
    reveal_strlit("global");
    reveal_strlit("conversation");
    let none = Seq::<char>::empty();
    let g = "global"@;
    let c = "conversation"@;
    crate::text::law_trimmed_of(none, g, none);
    crate::text::law_trimmed_of(none, c, none);
    assert(none + g + none =~= g);
    assert(none + c + none =~= c);
    assert(crate::text::ascii_lowered(g).len() == 6);
    assert(crate::text::ascii_lowered(c).len() == 12);
}

/// What is to be remembered is the text without the white space around it; one
/// of fewer than six characters, or with nothing but what matching overlooks, is
/// not. It is for one conversation where that is said, else for all; its
/// importance lies between one and ten, and is what was said unless the text is
/// hardly worth it.
pub proof fn law_notes(
    content: Seq<char>,
    importance: i64,
    scope: Seq<char>,
    conversation_id: Option<Seq<char>>,
    source_message_id: Option<Seq<char>>,
    source_conversation_id: Option<Seq<char>>,
)
    ensures
        match note_of(
            content,
            importance,
            scope,
            conversation_id,
            source_message_id,
            source_conversation_id,
        ) {
            Some(n) => {
                &&& trimmed(content).len() >= 6
                &&& matchable(trimmed(content)).len() > 0
                &&& n.text == trimmed(content)
                &&& n.norm == matchable(trimmed(content))
                &&& 1 <= n.importance <= 10
                &&& !low_value(trimmed(content)) && 1 <= importance <= 10 ==> n.importance
                    == importance
                &&& low_value(trimmed(content)) && 1 < importance <= 10 ==> n.importance
                    < importance
                &&& n.scope == "conversation"@ <==> same_ignoring_ascii_case(
                    trimmed(scope),
                    "conversation"@,
                )
                &&& n.scope == "conversation"@ || n.scope == "global"@
                &&& n.scope == "global"@ ==> n.conversation_id is None
                &&& n.scope == "conversation"@ ==> (conversation_id matches Some(id) ==> (trimmed(
                    id,
                ).len() > 0 ==> n.conversation_id == Some(trimmed(id))))
            },
            None => trimmed(content).len() < 6 || matchable(trimmed(content)).len() == 0,
        },
{
    reveal_strlit("global");
    reveal_strlit("conversation");
    assert("global"@.len() != "conversation"@.len());
}

/// A text of up to eight characters, and a word of assent or thanks, is hardly
/// worth remembering; nothing else is.
pub proof fn law_low_value(s: Seq<char>)
    ensures
        lowercase(trimmed(s)).len() <= 8 ==> low_value(s),
        low_value(s) ==> lowercase(trimmed(s)).len() <= 8,
{
    let all = crate::memory::small_talk();
    let t = lowercase(trimmed(s));
    reveal_strlit("ok");
    reveal_strlit("嗯");
    reveal_strlit("好的");
    reveal_strlit("谢谢");
    reveal_strlit("收到");
    reveal_strlit("知道了");
    reveal_strlit("yes");
    reveal_strlit("fine");
    reveal_strlit("great");
    reveal_strlit("lol");
    if all.contains(t) {
        let k = all.index_of(t);
        assert(all[0].len() <= 8 && all[1].len() <= 8 && all[2].len() <= 8 && all[3].len() <= 8
            && all[4].len() <= 8 && all[5].len() <= 8 && all[6].len() <= 8 && all[7].len() <= 8
            && all[8].len() <= 8 && all[9].len() <= 8);
        assert(k == 0 || k == 1 || k == 2 || k == 3 || k == 4 || k == 5 || k == 6 || k == 7 || k
            == 8 || k == 9);
    }
}

// ---------------------------------------------------------------------------
// Matching and merging
// ---------------------------------------------------------------------------

/// The character counts for nothing when texts are matched.
pub open spec fn is_overlooked(c: char) -> bool {
    ||| c == ' '
    ||| c == '\n'
    ||| c == '\t'
    ||| c == '，'
    ||| c == ','
    ||| c == '。'
    ||| c == '.'
    ||| c == '！'
    ||| c == '!'
    ||| c == '？'
    ||| c == '?'
    ||| c == ':'
    ||| c == '：'
    ||| c == ';'
    ||| c == '；'
    ||| c == '"'
    ||| c == '\''
    ||| c == '`'
}

/// A text as matching sees it holds the characters of its lower case but those
/// that are overlooked.
pub proof fn law_matchable(s: Seq<char>, c: char)
    ensures
        matchable(s).contains(c) <==> lowercase(s).contains(c) && !is_overlooked(c),
        matchable(s).len() <= lowercase(s).len(),
{
    let low = lowercase(s);
    let keep = |c: char| !crate::memory::is_match_noise(c);
    lemma_noise(c);
    if matchable(s).contains(c) {
        let i = matchable(s).index_of(c);
        let j = lemma_filter_member(low, keep, i);
        assert(low[j] == c);
    }
    if low.contains(c) && !is_overlooked(c) {
        let j = low.index_of(c);
        let i = lemma_filter_keeps(low, keep, j);
        assert(matchable(s)[i] == c);
    }
    lemma_filter_len(low, keep);
}

proof fn lemma_filter_len<A>(s: Seq<A>, p: spec_fn(A) -> bool)
    ensures
        s.filter(p).len() <= s.len(),
    decreases s.len(),
{
    reveal(Seq::filter);
    if s.len() > 0 {
        lemma_filter_len(s.drop_last(), p);
    }
}

proof fn lemma_noise(c: char)
    ensures
        match_noise().contains(c) == is_overlooked(c),
{
    let all = match_noise();
    assert(all.len() == 18);
    assert(all[0] == ' ' && all[1] == '\n' && all[2] == '\t' && all[3] == '，' && all[4] == ','
        && all[5] == '。' && all[6] == '.' && all[7] == '！' && all[8] == '!');
    assert(all[9] == '？' && all[10] == '?' && all[11] == ':' && all[12] == '：' && all[13] == ';'
        && all[14] == '；' && all[15] == '"' && all[16] == '\'' && all[17] == '`');
    if all.contains(c) {
        let k = all.index_of(c);
        assert(k == 0 || k == 1 || k == 2 || k == 3 || k == 4 || k == 5 || k == 6 || k == 7 || k
            == 8 || k == 9 || k == 10 || k == 11 || k == 12 || k == 13 || k == 14 || k == 15 || k
            == 16 || k == 17);
    }
}

/// The places of `a` whose characters also stand in `b`.
pub open spec fn shared_places(a: Seq<char>, b: Seq<char>) -> Set<int> {
    Set::new(|i: int| 0 <= i < a.len() && b.contains(a[i]))
}

/// The shared characters are as many as there are such places.
pub proof fn lemma_shared(a: Seq<char>, b: Seq<char>)
    ensures
        shared_places(a, b).finite(),
        shared_places(a, b).len() == shared_count(a, b),
    decreases a.len(),
{
    reveal(Seq::filter);
    let p = |c: char| b.contains(c);
    if a.len() == 0 {
        assert(shared_places(a, b) =~= Set::empty());
        assert(a.filter(p).len() == 0);
    } else {
        let front = a.drop_last();
        let n = a.len() - 1;
        lemma_shared(front, b);
        if b.contains(a.last()) {
            assert(shared_places(a, b) =~= shared_places(front, b).insert(n));
            assert(!shared_places(front, b).contains(n));
        } else {
            assert(shared_places(a, b) =~= shared_places(front, b));
        }
    }
}

/// Two texts match by the characters of the first that also stand in the second,
/// up to ten; where one is a part of the other they match by twelve; an empty
/// text matches nothing.
pub proof fn law_overlap(a: Seq<char>, b: Seq<char>)
    ensures
        a.len() == 0 || b.len() == 0 ==> overlap(a, b) == 0,
        a.len() > 0 && b.len() > 0 && (has_part(a, b) || has_part(b, a)) ==> overlap(a, b) == 12,
        a.len() > 0 && b.len() > 0 && !has_part(a, b) && !has_part(b, a) ==> {
            &&& shared_places(a, b).len() <= 10 ==> overlap(a, b) == shared_places(a, b).len()
            &&& shared_places(a, b).len() > 10 ==> overlap(a, b) == 10
        },
{
    lemma_shared(a, b);
}

/// A remembered text with a new one worked into it loses nothing of either, as
/// long as both fit: each, without the white space around it, is a part of the
/// result. What is already there is not added again.
pub proof fn law_merging_loses_nothing(old_text: Seq<char>, new_text: Seq<char>)
    ensures
        merged_content(old_text, new_text).len() <= 400,
        trimmed(old_text).len() + trimmed(new_text).len() < 400 ==> has_part(
            merged_content(old_text, new_text),
            trimmed(old_text),
        ) && has_part(merged_content(old_text, new_text), trimmed(new_text)),
        has_part(trimmed(old_text), trimmed(new_text)) && 0 < trimmed(old_text).len() <= 400
            ==> merged_content(old_text, new_text) == trimmed(old_text),
{
    let o = trimmed(old_text);
    let n = trimmed(new_text);
    let r = merged_content(old_text, new_text);
    reveal_strlit("；");
    if o.len() + n.len() < 400 {
        lemma_part_of_self(o);
        lemma_part_of_self(n);
        if o.len() == 0 {
            assert(r.subrange(0, 0) =~= o);
            assert(occurs_at(r, o, 0));
        } else if n.len() == 0 {
            assert(r.subrange(0, 0) =~= n);
            assert(occurs_at(r, n, 0));
        } else if !has_part(o, n) && !has_part(n, o) {
            assert(r == o + "；"@ + n);
            assert(r.subrange(0, 0 + o.len() as int) =~= o);
            assert(occurs_at(r, o, 0));
            let at = o.len() as int + 1;
            assert(r.subrange(at, at + n.len()) =~= n);
            assert(occurs_at(r, n, at));
        }
    }
    if has_part(o, n) && 0 < o.len() <= 400 {
        assert(r == o);
    }
}

pub proof fn lemma_part_of_self(s: Seq<char>)
    ensures
        has_part(s, s),
{
    assert(s.subrange(0, 0 + s.len() as int) =~= s);
    assert(occurs_at(s, s, 0));
}

/// Two texts that hold nothing of each other are put one behind the other, the
/// remembered one first, and cut to 400 characters.
pub proof fn law_merging_puts_the_new_behind_the_old(old_text: Seq<char>, new_text: Seq<char>)
    requires
        trimmed(old_text).len() > 0,
        trimmed(new_text).len() > 0,
        !has_part(trimmed(old_text), trimmed(new_text)),
        !has_part(trimmed(new_text), trimmed(old_text)),
    ensures
        ({
            let all = trimmed(old_text) + "；"@ + trimmed(new_text);
            &&& all.len() <= 400 ==> merged_content(old_text, new_text) == all
            &&& all.len() > 400 ==> merged_content(old_text, new_text) == all.take(400)
        }),
{
}

/// The sentences of a text come in their order: those before an end of a
/// sentence, then those behind it.
pub proof fn law_sentences_come_in_order(a: Seq<char>, stop: char, b: Seq<char>)
    requires
        ends_sentence(stop),
    ensures
        long_lines(a.push(stop) + b) == long_lines(a) + long_lines(b),
{
    let sep = |c: char| line_ends().contains(c);
    let clean = |p: Seq<char>| trimmed(p);
    let long = |p: Seq<char>| p.len() >= 10;
    lemma_line_ends(stop);
    lemma_pieces_clean(a, sep);
    let head = a.push(stop);
    let none = Seq::<char>::empty();
    assert(head.drop_last() =~= a);
    assert(pieces(head, sep) == pieces(a, sep).push(none));
    lemma_pieces_in_two(head, b, sep);
    assert(pieces(head, sep).drop_last() =~= pieces(a, sep));
    assert(none + b =~= b);
    let x = pieces(a, sep);
    let y = pieces(b, sep);
    assert(pieces(head + b, sep) == x + y);
    assert((x + y).map_values(clean) =~= x.map_values(clean) + y.map_values(clean));
    lemma_filter_add(x.map_values(clean), y.map_values(clean), long);
}

proof fn lemma_filter_add<A>(a: Seq<A>, b: Seq<A>, p: spec_fn(A) -> bool)
    ensures
        (a + b).filter(p) == a.filter(p) + b.filter(p),
    decreases b.len(),
{
    reveal(Seq::filter);
    if b.len() == 0 {
        assert(a + b =~= a);
        assert(a.filter(p) + b.filter(p) =~= a.filter(p));
    } else {
        lemma_filter_add(a, b.drop_last(), p);
        assert((a + b).drop_last() =~= a + b.drop_last());
        assert((a.filter(p) + b.drop_last().filter(p)).push(b.last()) =~= a.filter(p)
            + b.drop_last().filter(p).push(b.last()));
    }
}

/// What a message that asks to be remembered gives are its first eight long
/// sentences, in their order.
pub proof fn law_first_sentences_are_remembered(text: Seq<char>, lower: Seq<char>, k: int)
    requires
        text.len() >= 10,
        has_remember_words(text) || has_remember_words_lowered(lower),
    ensures
        candidates_of(text, lower).len() == (if long_lines(text).len() <= 8 {
            long_lines(text).len() as int
        } else {
            8
        }),
        0 <= k < candidates_of(text, lower).len() ==> candidates_of(text, lower)[k].content
            == long_lines(text)[k],
{
    law_remember_words(text);
    law_remember_words_lowered(lower);
}

/// A text that is hardly worth remembering counts two steps less, down to one.
pub proof fn law_little_is_less_important(
    content: Seq<char>,
    importance: i64,
    scope: Seq<char>,
)
    requires
        low_value(trimmed(content)),
        1 <= importance <= 10,
    ensures
        note_of(content, importance, scope, None, None, None) matches Some(n) ==> n.importance == (
        if importance <= 3 {
            1
        } else {
            importance - 2
        }),
{
}

} // verus!
