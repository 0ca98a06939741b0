//! Summaries of old messages.
use vstd::prelude::*;
use crate::memory::text_in;
use crate::models::Message;
use crate::text::{
    char_count, chars_of, clip_chars, clipped, flatten_spaces, flattened, is_blank, join, joined,
    sub_chars, text_eq, text_of, texts, trim_chars, trimmed,
};

verus! {

/// A character that ends a sentence.
pub open spec fn is_sentence_end(c: char) -> bool {
    c == '。' || c == '！' || c == '？' || c == '.' || c == '!' || c == '?'
}

/// How many characters the first sentence takes, when those before `from` do
/// not end it; a sentence of `max` characters ends there.
pub open spec fn sentence_length(s: Seq<char>, from: int, max: int) -> int
    decreases s.len() - from,
{
    if from >= s.len() {
        s.len() as int
    } else if is_sentence_end(s[from]) || from + 1 >= max {
        from + 1
    } else {
        sentence_length(s, from + 1, max)
    }
}

/// The first sentence of a text, with single blanks and at most `max` characters.
pub open spec fn lead_sentence(s: Seq<char>, max: int) -> Seq<char> {
    let clean = flattened(s);
    clipped(trimmed(clean.take(sentence_length(clean, 0, max))), max)
}

/// The first sentence of a text, with single blanks and at most `max_chars` characters.
pub fn first_sentence(input: &str, max_chars: usize) -> (r: String)
    ensures
        r@ == lead_sentence(input@, max_chars as int),
{
    let clean = chars_of(&flatten_spaces(input));
    let mut n: usize = 0;
    let mut ended = false;
    while n < clean.len() && !ended
        invariant
            n <= clean.len(),
            !ended ==> sentence_length(clean@, 0, max_chars as int) == sentence_length(
                clean@,
                n as int,
                max_chars as int,
            ),
            ended ==> sentence_length(clean@, 0, max_chars as int) == n,
        decreases clean.len() - n + (if ended { 0int } else { 1 }),
    {
        let ch = clean[n];
        n = n + 1;
        if ch == '。' || ch == '！' || ch == '？' || ch == '.' || ch == '!' || ch == '?' || n
            >= max_chars {
            ended = true;
        }
    }
    let out = sub_chars(&clean, 0, n);
    assert(out@ =~= clean@.take(n as int));
    clip_chars(&text_of(&trim_chars(&out)), max_chars)
}

/// The line of a summary that a message gives.
pub open spec fn line_of(role: Seq<char>, content: Seq<char>) -> Option<Seq<char>> {
    let body = lead_sentence(content, 170);
    if body.len() < 8 {
        None
    } else if role == "user"@ {
        Some("- User: "@ + body)
    } else if role == "assistant"@ {
        Some("- Assistant: "@ + body)
    } else {
        None
    }
}

/// The line of a summary that a message gives.
pub fn summary_line(role: &str, content: &str) -> (r: Option<String>)
    ensures
        crate::text::opt_text(r) == line_of(role@, content@),
{
    let body = first_sentence(content, 170);
    if char_count(&body) < 8 {
        return None;
    }
    if text_eq(role, "user") {
        let mut line = "- User: ".to_owned();
        line.append(&body);
        Some(line)
    } else if text_eq(role, "assistant") {
        let mut line = "- Assistant: ".to_owned();
        line.append(&body);
        Some(line)
    } else {
        None
    }
}

/// The lines that messages give, each once and at most sixteen.
pub open spec fn lines_of(items: Seq<Message<Seq<char>>>) -> Seq<Seq<char>>
    decreases items.len(),
{
    if items.len() == 0 {
        Seq::empty()
    } else {
        let before = lines_of(items.drop_last());
        match line_of(items.last().role, items.last().content) {
            Some(line) => if before.len() < 16 && !before.contains(line) {
                before.push(line)
            } else {
                before
            },
            None => before,
        }
    }
}

/// The summary of some messages; empty where they give no line.
pub open spec fn summary_of(items: Seq<Message<Seq<char>>>) -> Seq<char> {
    let lines = lines_of(items);
    if lines.len() == 0 {
        Seq::empty()
    } else {
        clipped("Earlier conversation summary segment:\n"@ + joined(lines, "\n"@), 3200)
    }
}

/// The summary of some messages; empty where they give no line.
pub fn build_summary(items: &[Message]) -> (r: String)
    ensures
        r@ == summary_of(crate::sorting::views(items@)),
{
    let ghost all = crate::sorting::views(items@);
    let mut lines: Vec<String> = Vec::new();
    assert(texts(lines@) =~= lines_of(all.take(0)));
    for i in 0..items.len()
        invariant
            all == crate::sorting::views(items@),
            texts(lines@) == lines_of(all.take(i as int)),
    {
        assert(all.take(i + 1).drop_last() =~= all.take(i as int));
        assert(all.take(i + 1).last() == items@[i as int]@);
        assert(texts(lines@).len() == lines@.len());
        if lines.len() < 16 {
            match summary_line(&items[i].role, &items[i].content) {
                Some(line) => {
                    if !text_in(&lines, &line) {
                        let ghost next = texts(lines@).push(line@);
                        lines.push(line);
                        assert(texts(lines@) =~= next);
                    }
                },
                None => {},
            }
        }
    }
    assert(all.take(items@.len() as int) =~= all);
    assert(texts(lines@).len() == lines@.len());
    if lines.len() == 0 {
        return String::new();
    }
    let mut out = "Earlier conversation summary segment:\n".to_owned();
    out.append(&join(&lines, "\n"));
    clip_chars(&out, 3200)
}

/// How many messages at the end are never summarised.
pub const SUMMARY_KEEP_RECENT: usize = 18;

/// How many messages are looked at for summaries.
pub const SUMMARY_SCAN_LIMIT: i64 = 6000;

/// How many messages a segment holds at most.
pub const SUMMARY_SEGMENT_SIZE: usize = 18;

/// How many messages a segment holds at least.
pub const SUMMARY_MIN_SEGMENT: usize = 8;

/// A run of messages and its summary.
#[verifier::ext_equal]
#[derive(Debug)]
pub struct Segment<S = String> {
    /// Where the run starts.
    pub start: usize,
    /// How many messages it has.
    pub count: usize,
    /// Its summary.
    pub summary: S,
}

impl View for Segment<String> {
    type V = Segment<Seq<char>>;

    open spec fn view(&self) -> Segment<Seq<char>> {
        Segment { start: self.start, count: self.count, summary: self.summary@ }
    }
}

/// The segments of the first `upto` messages from `start` on, each full but
/// perhaps the last; the row ends before a segment without summary.
pub open spec fn segments_from(
    items: Seq<Message<Seq<char>>>,
    upto: int,
    start: int,
) -> Seq<Segment<Seq<char>>>
    decreases upto - start,
{
    if upto - start < SUMMARY_MIN_SEGMENT {
        Seq::empty()
    } else {
        let count = if upto - start < SUMMARY_SEGMENT_SIZE {
            upto - start
        } else {
            SUMMARY_SEGMENT_SIZE as int
        };
        let summary = summary_of(items.subrange(start, start + count));
        if is_blank(summary) {
            Seq::empty()
        } else {
            seq![Segment { start: start as usize, count: count as usize, summary }]
                + segments_from(items, upto, start + count)
        }
    }
}

/// The segments that pending messages are summarised in; the newest messages
/// stay as they are.
pub open spec fn segments_of(items: Seq<Message<Seq<char>>>) -> Seq<Segment<Seq<char>>> {
    if items.len() <= SUMMARY_KEEP_RECENT + 2 {
        Seq::empty()
    } else {
        segments_from(items, items.len() - SUMMARY_KEEP_RECENT, 0)
    }
}

/// The segments that pending messages are summarised in.
pub fn plan_segments(pending: &Vec<Message>) -> (r: Vec<Segment>)
    ensures
        crate::sorting::views(r@) == segments_of(crate::sorting::views(pending@)),
{
    let ghost items = crate::sorting::views(pending@);
    let mut r: Vec<Segment> = Vec::new();
    if pending.len() <= SUMMARY_KEEP_RECENT || pending.len() - SUMMARY_KEEP_RECENT <= 2 {
        assert(crate::sorting::views(r@) =~= Seq::empty());
        return r;
    }
    let upto = pending.len() - SUMMARY_KEEP_RECENT;
    let mut start: usize = 0;
    let mut stopped = false;
    assert(crate::sorting::views(r@) + segments_from(items, upto as int, 0) =~= segments_from(
        items,
        upto as int,
        0,
    ));
    while !stopped && upto - start >= SUMMARY_MIN_SEGMENT
        invariant
            items == crate::sorting::views(pending@),
            upto <= pending.len(),
            start <= upto,
            !stopped ==> segments_from(items, upto as int, 0) == crate::sorting::views(r@)
                + segments_from(items, upto as int, start as int),
            stopped ==> segments_from(items, upto as int, 0) == crate::sorting::views(r@),
        decreases upto - start + (if stopped { 0int } else { 1 }),
    {
        let remain = upto - start;
        let count: usize = if remain < SUMMARY_SEGMENT_SIZE {
            remain
        } else {
            SUMMARY_SEGMENT_SIZE
        };
        let slice = vstd::slice::slice_subrange(pending.as_slice(), start, start + count);
        let summary = build_summary(slice);
        assert(crate::sorting::views(slice@) =~= items.subrange(start as int, start + count));
        if crate::text::blank(&summary) {
            assert(crate::sorting::views(r@) + Seq::empty() =~= crate::sorting::views(r@));
            stopped = true;
        } else {
            let seg = Segment { start, count, summary };
            let ghost before = crate::sorting::views(r@);
            let ghost rest = segments_from(items, upto as int, start + count);
            assert(before + (seq![seg@] + rest) =~= before.push(seg@) + rest);
            r.push(seg);
            assert(crate::sorting::views(r@) =~= before.push(seg@));
            start = start + count;
        }
    }
    assert(crate::sorting::views(r@) + Seq::empty() =~= crate::sorting::views(r@));
    r
}

proof fn lemma_segments_from(items: Seq<Message<Seq<char>>>, upto: int, start: int)
    requires
        0 <= start <= upto <= items.len() <= usize::MAX,
    ensures
        ({
            let segs = segments_from(items, upto, start);
            forall|i: int|
                0 <= i < segs.len() ==> {
                    let s = #[trigger] segs[i];
                    &&& SUMMARY_MIN_SEGMENT <= s.count <= SUMMARY_SEGMENT_SIZE
                    &&& start <= s.start
                    &&& s.start + s.count <= upto
                    &&& (i == 0 ==> s.start == start)
                    &&& (i > 0 ==> s.start == segs[i - 1].start + segs[i - 1].count)
                    &&& (i < segs.len() - 1 ==> s.count == SUMMARY_SEGMENT_SIZE)
                    &&& s.summary == summary_of(
                        items.subrange(s.start as int, s.start + s.count),
                    )
                    &&& !is_blank(s.summary)
                }
        }),
    decreases upto - start,
{
    if upto - start >= SUMMARY_MIN_SEGMENT {
        let count = if upto - start < SUMMARY_SEGMENT_SIZE {
            upto - start
        } else {
            SUMMARY_SEGMENT_SIZE as int
        };
        let summary = summary_of(items.subrange(start, start + count));
        if !is_blank(summary) {
            lemma_segments_from(items, upto, start + count);
            let rest = segments_from(items, upto, start + count);
            let segs = segments_from(items, upto, start);
            assert forall|i: int| 0 <= i < segs.len() implies {
                let s = #[trigger] segs[i];
                &&& SUMMARY_MIN_SEGMENT <= s.count <= SUMMARY_SEGMENT_SIZE
                &&& start <= s.start
                &&& s.start + s.count <= upto
                &&& (i == 0 ==> s.start == start)
                &&& (i > 0 ==> s.start == segs[i - 1].start + segs[i - 1].count)
                &&& (i < segs.len() - 1 ==> s.count == SUMMARY_SEGMENT_SIZE)
                &&& s.summary == summary_of(items.subrange(s.start as int, s.start + s.count))
                &&& !is_blank(s.summary)
            } by {
                if i > 0 {
                    assert(segs[i] == rest[i - 1]);
                    if i > 1 {
                        assert(segs[i - 1] == rest[i - 2]);
                    }
                }
            }
        }
    }
}

/// Segments follow one another from the first message on without gaps, hold
/// eight to eighteen messages each, only the last fewer than eighteen, have
/// something to say, and leave the newest eighteen messages as they are.
pub proof fn law_segments(items: Seq<Message<Seq<char>>>)
    requires
        items.len() <= usize::MAX,
    ensures
        ({
            let segs = segments_of(items);
            forall|i: int|
                0 <= i < segs.len() ==> {
                    let s = #[trigger] segs[i];
                    &&& SUMMARY_MIN_SEGMENT <= s.count <= SUMMARY_SEGMENT_SIZE
                    &&& s.start + s.count <= items.len() - SUMMARY_KEEP_RECENT
                    &&& (i == 0 ==> s.start == 0)
                    &&& (i > 0 ==> s.start == segs[i - 1].start + segs[i - 1].count)
                    &&& (i < segs.len() - 1 ==> s.count == SUMMARY_SEGMENT_SIZE)
                    &&& s.summary == summary_of(
                        items.subrange(s.start as int, s.start + s.count),
                    )
                    &&& !is_blank(s.summary)
                }
        }),
{
    if items.len() > SUMMARY_KEEP_RECENT + 2 {
        lemma_segments_from(items, items.len() - SUMMARY_KEEP_RECENT, 0);
    }
}

} // verus!
