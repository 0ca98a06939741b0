//! A reply that comes in pieces.
use vstd::prelude::*;
use crate::api::reply::{
    content_in, extract_delta_content, extract_reasoning, find_choice, find_error, first_choice,
    parse_token_usage, reasoning_in, reported_error, tidied, tidy, usage_of, Completion,
};
use crate::json::{get, get_in, json_of, member, member_of, opt_tree, parse, Json, JsonTree};
use crate::models::TokenUsage;
use crate::text::{
    chars_of, lemma_pieces_clean, lemma_pieces_in_two, pieces, starts, sub_chars, text_eq, text_of,
    trim_chars, trimmed,
};

verus! {

/// What `String::from_utf8_lossy` makes of bytes.
pub uninterp spec fn lossy_utf8(bytes: Seq<u8>) -> Seq<char>;

/// `String::from_utf8_lossy`. What it makes of bytes has a name and depends on
/// them alone; where they are UTF-8 it is their text.
#[verifier::external_body]
pub(crate) fn lossy_text(bytes: &[u8]) -> (r: String)
    ensures
        r@ == lossy_utf8(bytes@),
        vstd::utf8::valid_utf8(bytes@) ==> r@ == vstd::utf8::decode_utf8(bytes@),
{
    String::from_utf8_lossy(bytes).into_owned()
}

/// The text of bytes, with a replacement for what is not UTF-8.
pub fn text_of_bytes(bytes: &[u8]) -> (r: String)
    ensures
        r@ == lossy_utf8(bytes@),
        vstd::utf8::valid_utf8(bytes@) ==> r@ == vstd::utf8::decode_utf8(bytes@),
{
    lossy_text(bytes)
}

/// A piece of a reply that is shown at once.
#[derive(Debug)]
pub enum Piece<S = String> {
    Reasoning(S),
    Content(S),
}

impl View for Piece<String> {
    type V = Piece<Seq<char>>;

    open spec fn view(&self) -> Piece<Seq<char>> {
        match *self {
            Piece::Reasoning(s) => Piece::Reasoning(s@),
            Piece::Content(s) => Piece::Content(s@),
        }
    }
}

/// What is told of a reply while it comes.
pub struct StreamCallbacks<FC, FR> where
    FC: FnMut(&str) + Send + 'static,
    FR: FnMut(&str) + Send + 'static,
 {
    pub on_content: FC,
    pub on_reasoning: FR,
}

/// The pieces of a reply that came in one: reasoning first.
pub open spec fn whole_pieces(c: Completion<Seq<char>>) -> Seq<Piece<Seq<char>>> {
    (if c.reasoning.len() == 0 {
        Seq::empty()
    } else {
        seq![Piece::Reasoning(c.reasoning)]
    }) + (if c.content.len() == 0 {
        Seq::empty()
    } else {
        seq![Piece::Content(c.content)]
    })
}

/// The pieces of a reply that came in one: reasoning first.
pub fn pieces_of_whole(c: &Completion) -> (r: Vec<Piece>)
    ensures
        piece_views(r@) == whole_pieces(c@),
{
    let mut out: Vec<Piece> = Vec::new();
    if !c.reasoning.as_str().is_empty() {
        out.push(Piece::Reasoning(c.reasoning.clone()));
    }
    if !c.content.as_str().is_empty() {
        out.push(Piece::Content(c.content.clone()));
    }
    assert(piece_views(out@) =~= whole_pieces(c@));
    out
}

/// What was read of a stream so far.
#[verifier::ext_equal]
#[derive(Debug)]
pub struct Progress<S = String> {
    /// The beginning of a line whose end has not come yet.
    pub pending: S,
    pub content: S,
    pub reasoning: S,
    pub usage: TokenUsage,
    /// Nothing more is wanted.
    pub done: bool,
}

impl View for Progress<String> {
    type V = Progress<Seq<char>>;

    open spec fn view(&self) -> Progress<Seq<char>> {
        Progress {
            pending: self.pending@,
            content: self.content@,
            reasoning: self.reasoning@,
            usage: self.usage,
            done: self.done,
        }
    }
}

/// The views of pieces.
pub open spec fn piece_views(s: Seq<Piece>) -> Seq<Piece<Seq<char>>> {
    Seq::new(s.len(), |i: int| s[i]@)
}

/// What came of a part of a stream.
#[verifier::ext_equal]
pub struct Fed {
    pub progress: Progress<Seq<char>>,
    pub pieces: Seq<Piece<Seq<char>>>,
    pub error: Option<Seq<char>>,
}

/// `s` without every `p` at its beginning.
pub open spec fn without_leading(s: Seq<char>, p: Seq<char>) -> Seq<char>
    decreases s.len(),
{
    if p.len() > 0 && starts(s, p) {
        without_leading(s.skip(p.len() as int), p)
    } else {
        s
    }
}

/// The data that a line of a stream carries.
pub open spec fn payload_of(line: Seq<char>) -> Option<Seq<char>> {
    let t = trimmed(line);
    if starts(t, "data:"@) {
        Some(trimmed(without_leading(t, "data:"@)))
    } else {
        None
    }
}

/// The part of the reply that a value of a stream carries.
pub open spec fn delta_of(j: JsonTree) -> Option<JsonTree> {
    member_of(first_choice(j), "delta"@)
}

/// The pieces that a value of a stream carries: reasoning first.
pub open spec fn pieces_of(j: JsonTree) -> Seq<Piece<Seq<char>>> {
    match delta_of(j) {
        Some(d) => (match reasoning_in(d) {
            Some(r) => seq![Piece::Reasoning(r)],
            None => Seq::empty(),
        }) + (match content_in(d) {
            Some(c) => seq![Piece::Content(c)],
            None => Seq::empty(),
        }),
        None => Seq::empty(),
    }
}

/// The texts of the reasoning pieces one after the other.
pub open spec fn reasoning_text(s: Seq<Piece<Seq<char>>>) -> Seq<char>
    decreases s.len(),
{
    if s.len() == 0 {
        Seq::empty()
    } else {
        match s.last() {
            Piece::Reasoning(t) => reasoning_text(s.drop_last()) + t,
            Piece::Content(_) => reasoning_text(s.drop_last()),
        }
    }
}

/// The texts of the content pieces one after the other.
pub open spec fn content_text_of(s: Seq<Piece<Seq<char>>>) -> Seq<char>
    decreases s.len(),
{
    if s.len() == 0 {
        Seq::empty()
    } else {
        match s.last() {
            Piece::Content(t) => content_text_of(s.drop_last()) + t,
            Piece::Reasoning(_) => content_text_of(s.drop_last()),
        }
    }
}

/// What comes of a value of a stream.
pub open spec fn after_value(p: Progress<Seq<char>>, j: JsonTree) -> Fed {
    match reported_error(Some(j)) {
        Some(m) => Fed { progress: p, pieces: Seq::empty(), error: Some("model stream error: "@ + m) },
        None => Fed {
            progress: Progress {
                content: p.content + content_text_of(pieces_of(j)),
                reasoning: p.reasoning + reasoning_text(pieces_of(j)),
                usage: match member(j, "usage"@) {
                    Some(u) => usage_of(u),
                    None => p.usage,
                },
                ..p
            },
            pieces: pieces_of(j),
            error: None,
        },
    }
}

/// What comes of data, given the value that it is; what is none is passed over.
pub open spec fn after_payload(
    p: Progress<Seq<char>>,
    payload: Seq<char>,
    j: Option<JsonTree>,
) -> Fed {
    if payload == "[DONE]"@ {
        Fed { progress: Progress { done: true, ..p }, pieces: Seq::empty(), error: None }
    } else {
        match j {
            Some(v) => after_value(p, v),
            None => Fed { progress: p, pieces: Seq::empty(), error: None },
        }
    }
}

/// What comes of a line.
pub open spec fn after_line(p: Progress<Seq<char>>, line: Seq<char>) -> Fed {
    match payload_of(line) {
        Some(data) => after_payload(p, data, json_of(data)),
        None => Fed { progress: p, pieces: Seq::empty(), error: None },
    }
}

/// What comes of lines: nothing more once the stream is done or failed.
pub open spec fn after_lines(p: Progress<Seq<char>>, lines: Seq<Seq<char>>) -> Fed
    decreases lines.len(),
{
    if lines.len() == 0 {
        Fed { progress: p, pieces: Seq::empty(), error: None }
    } else {
        let before = after_lines(p, lines.drop_last());
        if before.progress.done || before.error is Some {
            before
        } else {
            let step = after_line(before.progress, lines.last());
            Fed {
                progress: step.progress,
                pieces: before.pieces + step.pieces,
                error: step.error,
            }
        }
    }
}

/// The lines of a text, the last of which may not be complete.
pub open spec fn lines_in(s: Seq<char>) -> Seq<Seq<char>> {
    pieces(s, |c: char| c == '\n')
}

/// What comes of a part of a stream.
pub open spec fn after_text(p: Progress<Seq<char>>, part: Seq<char>) -> Fed {
    let lines = lines_in(p.pending + part);
    after_lines(Progress { pending: lines.last(), ..p }, lines.drop_last())
}

/// What comes of the bytes of a part of a stream; where the reader asked to
/// stop, nothing.
pub open spec fn after_part(p: Progress<Seq<char>>, cancelled: bool, part: Seq<char>) -> Fed {
    if cancelled {
        Fed { progress: Progress { done: true, ..p }, pieces: Seq::empty(), error: None }
    } else {
        after_text(p, part)
    }
}

/// Nothing was read yet.
pub open spec fn not_started() -> Progress<Seq<char>> {
    Progress {
        pending: Seq::empty(),
        content: Seq::empty(),
        reasoning: Seq::empty(),
        usage: TokenUsage::zero(),
        done: false,
    }
}

/// `s` without every `p` at its beginning.
fn trim_start_text(s: &Vec<char>, p: &Vec<char>) -> (r: Vec<char>)
    requires
        p@.len() > 0,
    ensures
        r@ == without_leading(s@, p@),
{
    let mut from: usize = 0;
    assert(s@.skip(0) =~= s@);
    while p.len() <= s.len() - from && crate::text::occurs(s, p, from)
        invariant
            p@.len() > 0,
            from <= s.len(),
            without_leading(s@.skip(from as int), p@) == without_leading(s@, p@),
        decreases s.len() - from,
    {
        let ghost rest = s@.skip(from as int);
        assert(rest.take(p@.len() as int) =~= s@.subrange(from as int, from + p@.len()));
        assert(rest.skip(p@.len() as int) =~= s@.skip(from + p@.len()));
        from = from + p.len();
    }
    proof {
        let rest = s@.skip(from as int);
        if starts(rest, p@) {
            assert(rest.take(p@.len() as int) =~= s@.subrange(from as int, from + p@.len()));
        }
    }
    let n: usize = s.len();
    let r = sub_chars(s, from, n);
    assert(r@ =~= s@.skip(from as int));
    r
}

/// The data that a line of a stream carries.
pub fn read_line(line: &Vec<char>) -> (r: Option<String>)
    ensures
        crate::text::opt_text(r) == payload_of(line@),
{
    let t = trim_chars(line);
    let key = chars_of("data:");
    proof {
        reveal_strlit("data:");
    }
    if crate::text::occurs(&t, &key, 0) {
        assert(t@.subrange(0, key@.len() as int) =~= t@.take(key@.len() as int));
        Some(text_of(&trim_chars(&trim_start_text(&t, &key))))
    } else {
        assert(starts(t@, key@) ==> t@.subrange(0, key@.len() as int) =~= t@.take(
            key@.len() as int,
        ));
        None
    }
}

impl Progress {
    /// Nothing was read yet.
    pub fn new() -> (r: Progress)
        ensures
            r@ == not_started(),
    {
        Progress {
            pending: String::new(),
            content: String::new(),
            reasoning: String::new(),
            usage: TokenUsage::default(),
            done: false,
        }
    }

    /// Takes a value of a stream; its pieces are added to `out`.
    pub fn take_value(&mut self, j: &Json, out: &mut Vec<Piece>) -> (r: Option<String>)
        ensures
            ({
                let fed = after_value(old(self)@, j@);
                &&& final(self)@ == fed.progress
                &&& piece_views(final(out)@) == piece_views(old(out)@) + fed.pieces
                &&& crate::text::opt_text(r) == fed.error
            }),
    {
        let ghost before = self@;
        let ghost shown = piece_views(out@);
        if let Some(m) = find_error(Some(j)) {
            let mut e = "model stream error: ".to_owned();
            e.append(m);
            assert(shown + Seq::<Piece<Seq<char>>>::empty() =~= shown);
            return Some(e);
        }
        let delta = get_in(find_choice(j), "delta");
        let ghost all = pieces_of(j@);
        if let Some(d) = delta {
            let reasoning = extract_reasoning(d);
            let content = extract_delta_content(d);
            proof {
                reveal_with_fuel(reasoning_text, 3);
                reveal_with_fuel(content_text_of, 3);
                if all.len() > 0 {
                    assert(all.drop_last().len() == all.len() - 1);
                }
            }
            if let Some(t) = reasoning {
                let ghost next = piece_views(out@).push(Piece::Reasoning(t@));
                self.reasoning.append(&t);
                out.push(Piece::Reasoning(t));
                assert(piece_views(out@) =~= next);
            }
            if let Some(t) = content {
                let ghost next = piece_views(out@).push(Piece::Content(t@));
                self.content.append(&t);
                out.push(Piece::Content(t));
                assert(piece_views(out@) =~= next);
            }
        }
        assert(piece_views(out@) =~= shown + all);
        assert(self.reasoning@ =~= before.reasoning + reasoning_text(all));
        assert(self.content@ =~= before.content + content_text_of(all));
        if let Some(u) = get(j, "usage") {
            self.usage = parse_token_usage(u);
        }
        None
    }

    /// Takes data of a stream, given the value that it is.
    pub fn take_payload(&mut self, payload: &str, j: Option<&Json>, out: &mut Vec<Piece>) -> (r:
        Option<String>)
        ensures
            ({
                let fed = after_payload(old(self)@, payload@, opt_tree(j));
                &&& final(self)@ == fed.progress
                &&& piece_views(final(out)@) == piece_views(old(out)@) + fed.pieces
                &&& crate::text::opt_text(r) == fed.error
            }),
    {
        assert(piece_views(out@) + Seq::<Piece<Seq<char>>>::empty() =~= piece_views(out@));
        if text_eq(payload, "[DONE]") {
            self.done = true;
            return None;
        }
        match j {
            Some(v) => self.take_value(v, out),
            None => None,
        }
    }

    /// Takes a line of a stream.
    fn take_line(&mut self, line: &Vec<char>, out: &mut Vec<Piece>) -> (r: Option<String>)
        ensures
            ({
                let fed = after_line(old(self)@, line@);
                &&& final(self)@ == fed.progress
                &&& piece_views(final(out)@) == piece_views(old(out)@) + fed.pieces
                &&& crate::text::opt_text(r) == fed.error
            }),
    {
        assert(piece_views(out@) + Seq::<Piece<Seq<char>>>::empty() =~= piece_views(out@));
        match read_line(line) {
            Some(data) => {
                let j = parse(&data);
                match &j {
                    Some(v) => self.take_payload(&data, Some(v), out),
                    None => self.take_payload(&data, None, out),
                }
            },
            None => None,
        }
    }

    /// Takes a part of a stream; what is to be shown comes back, with the
    /// reason where the stream failed.
    pub fn take_text(&mut self, part: &str) -> (r: (Vec<Piece>, Option<String>))
        ensures
            ({
                let fed = after_text(old(self)@, part@);
                &&& final(self)@ == fed.progress
                &&& piece_views(r.0@) == fed.pieces
                &&& crate::text::opt_text(r.1) == fed.error
            }),
    {
        let ghost before = self@;
        let mut whole = self.pending.clone();
        whole.append(part);
        let v = chars_of(&whole);
        let lines = split_lines(&v);
        let ghost all = line_views(lines@);
        let n: usize = lines.len();
        self.pending = text_of(&lines[n - 1]);
        let ghost start = self@;
        let ghost front = all.drop_last();
        assert(start == Progress { pending: all.last(), ..before });
        let mut out: Vec<Piece> = Vec::new();
        assert(piece_views(out@) =~= Seq::empty());
        assert(front.take(0) =~= Seq::empty());
        for i in 0..n - 1
            invariant
                before == old(self)@,
                all == line_views(lines@),
                1 <= n == lines@.len(),
                front == all.drop_last(),
                after_text(before, part@) == after_lines(start, front),
                self@ == after_lines(start, front.take(i as int)).progress,
                piece_views(out@) == after_lines(start, front.take(i as int)).pieces,
                after_lines(start, front.take(i as int)).error is None,
        {
            if self.done {
                proof {
                    lemma_lines_stop(start, front, i as int);
                }
                return (out, None);
            }
            assert(front.take(i + 1).drop_last() =~= front.take(i as int));
            assert(front[i as int] == lines@[i as int]@);
            let e = self.take_line(&lines[i], &mut out);
            if e.is_some() {
                proof {
                    lemma_lines_stop(start, front, i + 1);
                }
                return (out, e);
            }
        }
        assert(front.take(n - 1) =~= front);
        (out, None)
    }

    /// Takes the bytes of a part of a stream; where the reader asked to stop,
    /// nothing more is read.
    pub fn take_part(&mut self, cancelled: bool, part: &[u8]) -> (r: (Vec<Piece>, Option<String>))
        ensures
            ({
                let fed = after_part(old(self)@, cancelled, lossy_utf8(part@));
                &&& final(self)@ == fed.progress
                &&& piece_views(r.0@) == fed.pieces
                &&& crate::text::opt_text(r.1) == fed.error
            }),
    {
        if cancelled {
            self.done = true;
            let out: Vec<Piece> = Vec::new();
            assert(piece_views(out@) =~= Seq::empty());
            return (out, None);
        }
        let text = lossy_text(part);
        self.take_text(&text)
    }

    /// The reply that was read.
    pub fn finish(self) -> (r: Completion)
        ensures
            r@ == tidied(self@.content, self@.reasoning, self@.usage),
    {
        tidy(&self.content, self.reasoning, self.usage)
    }
}

/// The views of lines.
pub open spec fn line_views(s: Seq<Vec<char>>) -> Seq<Seq<char>> {
    Seq::new(s.len(), |i: int| s[i]@)
}

/// The lines of a text, the last of which may not be complete.
fn split_lines(v: &Vec<char>) -> (r: Vec<Vec<char>>)
    ensures
        line_views(r@) == lines_in(v@),
        r@.len() > 0,
{
    let mut out: Vec<Vec<char>> = Vec::new();
    let mut line: Vec<char> = Vec::new();
    assert(line_views(out@).push(line@) =~= lines_in(v@.take(0)));
    for i in 0..v.len()
        invariant
            line_views(out@).push(line@) == lines_in(v@.take(i as int)),
    {
        let ghost done = line_views(out@);
        let ghost before = lines_in(v@.take(i as int));
        assert(v@.take(i + 1).drop_last() =~= v@.take(i as int));
        if v[i] == '\n' {
            out.push(line);
            line = Vec::new();
            assert(line_views(out@) =~= before);
            assert(line_views(out@).push(line@) =~= before.push(Seq::empty()));
        } else {
            line.push(v[i]);
            assert(before.drop_last() =~= done);
            assert(line_views(out@).push(line@) =~= before.drop_last().push(
                before.last().push(v@[i as int]),
            ));
        }
    }
    assert(v@.take(v@.len() as int) =~= v@);
    let ghost done = line_views(out@);
    out.push(line);
    assert(line_views(out@) =~= done.push(line@));
    out
}

/// Once a stream is done or failed, further lines change nothing.
proof fn lemma_lines_stop(p: Progress<Seq<char>>, lines: Seq<Seq<char>>, k: int)
    requires
        0 <= k <= lines.len(),
        after_lines(p, lines.take(k)).progress.done || after_lines(p, lines.take(k)).error is Some,
    ensures
        after_lines(p, lines) == after_lines(p, lines.take(k)),
    decreases lines.len() - k,
{
    if k == lines.len() {
        assert(lines.take(k) =~= lines);
    } else {
        assert(lines.take(k + 1).drop_last() =~= lines.take(k));
        lemma_lines_stop(p, lines, k + 1);
    }
}

// ---------------------------------------------------------------------------
// Laws
// ---------------------------------------------------------------------------

/// What was read does not depend on the line whose end has not come yet.
proof fn lemma_pending(p: Progress<Seq<char>>, pending: Seq<char>, lines: Seq<Seq<char>>)
    ensures
        ({
            let a = after_lines(p, lines);
            let b = after_lines(Progress { pending, ..p }, lines);
            &&& b.progress == (Progress { pending, ..a.progress })
            &&& b.pieces == a.pieces
            &&& b.error == a.error
            &&& a.progress.pending == p.pending
        }),
    decreases lines.len(),
{
    if lines.len() > 0 {
        lemma_pending(p, pending, lines.drop_last());
    }
}

/// Lines read in two rows are lines read in one.
proof fn lemma_lines_in_two_rows(
    p: Progress<Seq<char>>,
    a: Seq<Seq<char>>,
    b: Seq<Seq<char>>,
)
    requires
        !after_lines(p, a).progress.done,
        after_lines(p, a).error is None,
    ensures
        ({
            let first = after_lines(p, a);
            let second = after_lines(first.progress, b);
            after_lines(p, a + b) == (Fed { pieces: first.pieces + second.pieces, ..second })
        }),
    decreases b.len(),
{
    let first = after_lines(p, a);
    if b.len() == 0 {
        assert(a + b =~= a);
        assert(first.pieces + Seq::<Piece<Seq<char>>>::empty() =~= first.pieces);
    } else {
        lemma_lines_in_two_rows(p, a, b.drop_last());
        assert((a + b).drop_last() =~= a + b.drop_last());
        assert((a + b).last() == b.last());
        let front = after_lines(first.progress, b.drop_last());
        if !(front.progress.done || front.error is Some) {
            let step = after_line(front.progress, b.last());
            assert(first.pieces + front.pieces + step.pieces =~= first.pieces + (front.pieces
                + step.pieces));
        }
    }
}

/// How a stream is cut into parts does not matter: two parts in a row give what
/// they give as one, as long as the first neither ends the stream nor fails.
pub proof fn law_parts_do_not_matter(p: Progress<Seq<char>>, a: Seq<char>, b: Seq<char>)
    requires
        !after_text(p, a).progress.done,
        after_text(p, a).error is None,
    ensures
        ({
            let first = after_text(p, a);
            let second = after_text(first.progress, b);
            after_text(p, a + b) == (Fed { pieces: first.pieces + second.pieces, ..second })
        }),
{
    let sep = |c: char| c == '\n';
    let whole = lines_in(p.pending + (a + b));
    let lines1 = lines_in(p.pending + a);
    let open = lines1.last();
    let lines2 = lines_in(open + b);
    lemma_pieces_clean(p.pending + a, sep);
    lemma_pieces_clean(open + b, sep);
    lemma_pieces_in_two(p.pending + a, b, sep);
    assert(p.pending + (a + b) =~= p.pending + a + b);
    assert(whole == lines1.drop_last() + lines2);
    assert(whole.last() == lines2.last());
    assert(whole.drop_last() =~= lines1.drop_last() + lines2.drop_last());
    let start = Progress { pending: open, ..p };
    let full = Progress { pending: whole.last(), ..p };
    let first = after_lines(start, lines1.drop_last());
    lemma_pending(start, whole.last(), lines1.drop_last());
    assert(full == Progress { pending: whole.last(), ..start });
    let same = after_lines(full, lines1.drop_last());
    lemma_lines_in_two_rows(full, lines1.drop_last(), lines2.drop_last());
    assert(same.progress == Progress { pending: lines2.last(), ..first.progress });
    assert(first.progress.pending == open);
}

/// What is shown while a stream is read is what was read of it: the content
/// and the reasoning grow by the pieces that are shown.
pub proof fn law_shown_is_what_was_read(p: Progress<Seq<char>>, part: Seq<char>)
    ensures
        ({
            let fed = after_text(p, part);
            &&& fed.progress.content == p.content + content_text_of(fed.pieces)
            &&& fed.progress.reasoning == p.reasoning + reasoning_text(fed.pieces)
        }),
{
    let lines = lines_in(p.pending + part);
    lemma_shown(Progress { pending: lines.last(), ..p }, lines.drop_last());
}

proof fn lemma_text_of_two(a: Seq<Piece<Seq<char>>>, b: Seq<Piece<Seq<char>>>)
    ensures
        content_text_of(a + b) == content_text_of(a) + content_text_of(b),
        reasoning_text(a + b) == reasoning_text(a) + reasoning_text(b),
    decreases b.len(),
{
    if b.len() == 0 {
        assert(a + b =~= a);
        assert(content_text_of(a) + Seq::<char>::empty() =~= content_text_of(a));
        assert(reasoning_text(a) + Seq::<char>::empty() =~= reasoning_text(a));
    } else {
        lemma_text_of_two(a, b.drop_last());
        assert((a + b).drop_last() =~= a + b.drop_last());
        match b.last() {
            Piece::Content(t) => {
                assert(content_text_of(a) + content_text_of(b.drop_last()) + t
                    =~= content_text_of(a) + (content_text_of(b.drop_last()) + t));
            },
            Piece::Reasoning(t) => {
                assert(reasoning_text(a) + reasoning_text(b.drop_last()) + t =~= reasoning_text(a)
                    + (reasoning_text(b.drop_last()) + t));
            },
        }
    }
}

proof fn lemma_shown(p: Progress<Seq<char>>, lines: Seq<Seq<char>>)
    ensures
        ({
            let fed = after_lines(p, lines);
            &&& fed.progress.content == p.content + content_text_of(fed.pieces)
            &&& fed.progress.reasoning == p.reasoning + reasoning_text(fed.pieces)
        }),
    decreases lines.len(),
{
    let none = Seq::<Piece<Seq<char>>>::empty();
    assert(p.content + content_text_of(none) =~= p.content);
    assert(p.reasoning + reasoning_text(none) =~= p.reasoning);
    if lines.len() > 0 {
        lemma_shown(p, lines.drop_last());
        let before = after_lines(p, lines.drop_last());
        if !(before.progress.done || before.error is Some) {
            let step = after_line(before.progress, lines.last());
            lemma_text_of_two(before.pieces, step.pieces);
            let q = before.progress;
            assert(q.content + content_text_of(none) =~= q.content);
            assert(q.reasoning + reasoning_text(none) =~= q.reasoning);
            assert(p.content + content_text_of(before.pieces) + content_text_of(step.pieces)
                =~= p.content + (content_text_of(before.pieces) + content_text_of(step.pieces)));
            assert(p.reasoning + reasoning_text(before.pieces) + reasoning_text(step.pieces)
                =~= p.reasoning + (reasoning_text(before.pieces) + reasoning_text(step.pieces)));
        }
    }
}

} // verus!
