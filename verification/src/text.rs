//! Text as a sequence of characters: trimming, splitting, searching, joining.
//!
//! Every function here is stated over the view of a string, which is the
//! sequence of its Unicode scalar values.
use vstd::prelude::*;

verus! {

// ---------------------------------------------------------------------------
// Characters
// ---------------------------------------------------------------------------

/// The Unicode property `White_Space`.
pub open spec fn is_white_space(c: char) -> bool {
    ||| '\u{9}' <= c <= '\u{d}'
    ||| c == ' '
    ||| c == '\u{85}'
    ||| c == '\u{a0}'
    ||| c == '\u{1680}'
    ||| '\u{2000}' <= c <= '\u{200a}'
    ||| c == '\u{2028}'
    ||| c == '\u{2029}'
    ||| c == '\u{202f}'
    ||| c == '\u{205f}'
    ||| c == '\u{3000}'
}

/// `char::is_whitespace` tells whether a character has the Unicode property
/// `White_Space`.
pub assume_specification[ char::is_whitespace ](c: char) -> (r: bool)
    ensures
        r == is_white_space(c),
;

/// `String::push` appends one character.
pub assume_specification[ String::push ](s: &mut String, c: char)
    ensures
        final(s)@ == old(s)@.push(c),
;

/// An ASCII capital letter as a small letter, any other character as it is.
pub open spec fn ascii_lower(c: char) -> char {
    if 'A' <= c <= 'Z' {
        ((c as u32) + 32) as char
    } else {
        c
    }
}

/// An ASCII small letter as a capital letter, any other character as it is.
pub open spec fn ascii_upper(c: char) -> char {
    if 'a' <= c <= 'z' {
        ((c as u32) - 32) as char
    } else {
        c
    }
}

/// All characters are ASCII.
pub open spec fn is_ascii_text(s: Seq<char>) -> bool {
    forall|i: int| 0 <= i < s.len() ==> (#[trigger] s[i] as u32) < 128
}

/// Every character of `s` in ASCII lower case.
pub open spec fn ascii_lowered(s: Seq<char>) -> Seq<char> {
    Seq::new(s.len(), |i: int| ascii_lower(s[i]))
}

/// Every character of `s` in ASCII upper case.
pub open spec fn ascii_uppered(s: Seq<char>) -> Seq<char> {
    Seq::new(s.len(), |i: int| ascii_upper(s[i]))
}

/// What `str::to_lowercase` makes of a text.
pub uninterp spec fn lowercase(s: Seq<char>) -> Seq<char>;

/// `str::to_lowercase` is a function of the text; on ASCII text it maps the
/// capital letters to small ones and keeps the rest.
pub assume_specification[ str::to_lowercase ](s: &str) -> (r: String)
    ensures
        r@ == lowercase(s@),
        is_ascii_text(s@) ==> r@ == ascii_lowered(s@),
;

/// What `str::to_uppercase` makes of a text.
pub uninterp spec fn uppercase(s: Seq<char>) -> Seq<char>;

/// `str::to_uppercase` is a function of the text; on ASCII text it maps the
/// small letters to capital ones and keeps the rest.
pub assume_specification[ str::to_uppercase ](s: &str) -> (r: String)
    ensures
        r@ == uppercase(s@),
        is_ascii_text(s@) ==> r@ == ascii_uppered(s@),
;

// ---------------------------------------------------------------------------
// What the operations mean
// ---------------------------------------------------------------------------

/// `s` without its leading white space.
pub open spec fn trimmed_start(s: Seq<char>) -> Seq<char>
    decreases s.len(),
{
    if s.len() > 0 && is_white_space(s[0]) {
        trimmed_start(s.drop_first())
    } else {
        s
    }
}

/// `s` without its trailing white space.
pub open spec fn trimmed_end(s: Seq<char>) -> Seq<char>
    decreases s.len(),
{
    if s.len() > 0 && is_white_space(s.last()) {
        trimmed_end(s.drop_last())
    } else {
        s
    }
}

/// `s` without the white space around it.
pub open spec fn trimmed(s: Seq<char>) -> Seq<char> {
    trimmed_end(trimmed_start(s))
}

/// `s` is empty or holds white space only.
pub open spec fn is_blank(s: Seq<char>) -> bool {
    trimmed(s).len() == 0
}

/// The first `max` characters of `s`, or all of it where it has no more.
pub open spec fn clipped(s: Seq<char>, max: int) -> Seq<char> {
    if s.len() <= max {
        s
    } else {
        s.take(max)
    }
}

/// `p` stands in `s` at position `i`.
pub open spec fn occurs_at(s: Seq<char>, p: Seq<char>, i: int) -> bool {
    &&& 0 <= i
    &&& i + p.len() <= s.len()
    &&& s.subrange(i, i + p.len()) == p
}

/// The first position at or after `from` where `p` stands in `s`.
pub open spec fn found_from(s: Seq<char>, p: Seq<char>, from: int) -> Option<int>
    decreases s.len() + 1 - from,
{
    if from < 0 || from + p.len() > s.len() {
        None
    } else if occurs_at(s, p, from) {
        Some(from)
    } else {
        found_from(s, p, from + 1)
    }
}

/// `p` is a part of `s`.
pub open spec fn has_part(s: Seq<char>, p: Seq<char>) -> bool {
    exists|i: int| occurs_at(s, p, i)
}

/// One of `keys` is a part of `s`.
pub open spec fn has_any(s: Seq<char>, keys: Seq<Seq<char>>) -> bool {
    exists|k: int| 0 <= k < keys.len() && has_part(s, #[trigger] keys[k])
}

/// `s` begins with `p`.
pub open spec fn starts(s: Seq<char>, p: Seq<char>) -> bool {
    s.len() >= p.len() && s.take(p.len() as int) == p
}

/// `s` ends with `p`.
pub open spec fn ends(s: Seq<char>, p: Seq<char>) -> bool {
    s.len() >= p.len() && s.skip(s.len() - p.len()) == p
}

/// `s` cut at every character for which `sep` holds; the cut characters are
/// dropped, empty pieces are kept.
pub open spec fn pieces(s: Seq<char>, sep: spec_fn(char) -> bool) -> Seq<Seq<char>>
    decreases s.len(),
{
    if s.len() == 0 {
        seq![Seq::empty()]
    } else {
        let before = pieces(s.drop_last(), sep);
        if sep(s.last()) {
            before.push(Seq::empty())
        } else {
            before.drop_last().push(before.last().push(s.last()))
        }
    }
}

/// The character is white space.
pub open spec fn is_space() -> spec_fn(char) -> bool {
    |c: char| is_white_space(c)
}

/// The text is not empty.
pub open spec fn is_filled() -> spec_fn(Seq<char>) -> bool {
    |s: Seq<char>| s.len() > 0
}

/// The runs of characters between white space.
pub open spec fn words(s: Seq<char>) -> Seq<Seq<char>> {
    pieces(s, is_space()).filter(is_filled())
}

/// `parts` one after the other with `sep` between them.
pub open spec fn joined(parts: Seq<Seq<char>>, sep: Seq<char>) -> Seq<char>
    decreases parts.len(),
{
    if parts.len() == 0 {
        Seq::empty()
    } else if parts.len() == 1 {
        parts[0]
    } else {
        joined(parts.drop_last(), sep) + sep + parts.last()
    }
}

/// `s` with every `c` replaced by `with`.
pub open spec fn replaced(s: Seq<char>, c: char, with: Seq<char>) -> Seq<char>
    decreases s.len(),
{
    if s.len() == 0 {
        Seq::empty()
    } else if s.last() == c {
        replaced(s.drop_last(), c, with) + with
    } else {
        replaced(s.drop_last(), c, with).push(s.last())
    }
}

/// `s` up to its first character zero, which ends a text where SQLite measures,
/// cuts or searches it.
pub open spec fn before_nul(s: Seq<char>) -> Seq<char>
    decreases s.len(),
{
    if s.len() == 0 || s[0] == '\0' {
        Seq::empty()
    } else {
        seq![s[0]] + before_nul(s.drop_first())
    }
}

/// The words of `s` with one blank between them.
pub open spec fn flattened(s: Seq<char>) -> Seq<char> {
    joined(words(s), seq![' '])
}

/// `a` and `b` differ at most in the case of ASCII letters.
pub open spec fn same_ignoring_ascii_case(a: Seq<char>, b: Seq<char>) -> bool {
    ascii_lowered(a) == ascii_lowered(b)
}

/// The views of a sequence of strings.
pub open spec fn texts(s: Seq<String>) -> Seq<Seq<char>> {
    Seq::new(s.len(), |i: int| s[i]@)
}

/// The views of a sequence of string slices.
pub open spec fn strs(s: Seq<&str>) -> Seq<Seq<char>> {
    Seq::new(s.len(), |i: int| s[i]@)
}

/// The view of an optional string.
pub open spec fn opt_text(s: Option<String>) -> Option<Seq<char>> {
    match s {
        Some(t) => Some(t@),
        None => None,
    }
}

/// The view of an optional string slice.
pub open spec fn opt_str(s: Option<&str>) -> Option<Seq<char>> {
    match s {
        Some(t) => Some(t@),
        None => None,
    }
}

/// Dictionary order by scalar value.
pub open spec fn text_le(a: Seq<char>, b: Seq<char>) -> bool
    decreases a.len(),
{
    if a.len() == 0 {
        true
    } else if b.len() == 0 {
        false
    } else if a[0] != b[0] {
        (a[0] as u32) < (b[0] as u32)
    } else {
        text_le(a.drop_first(), b.drop_first())
    }
}

proof fn lemma_trimmed_start(s: Seq<char>)
    ensures
        trimmed_start(s).len() > 0 ==> !is_white_space(trimmed_start(s)[0]),
    decreases s.len(),
{
    if s.len() > 0 && is_white_space(s[0]) {
        lemma_trimmed_start(s.drop_first());
    }
}

proof fn lemma_trimmed_end(s: Seq<char>)
    ensures
        trimmed_end(s).len() <= s.len(),
        trimmed_end(s) == s.take(trimmed_end(s).len() as int),
        trimmed_end(s).len() > 0 ==> !is_white_space(trimmed_end(s).last()),
        s.len() > 0 && !is_white_space(s[0]) ==> trimmed_end(s).len() > 0,
    decreases s.len(),
{
    if s.len() > 0 && is_white_space(s.last()) {
        lemma_trimmed_end(s.drop_last());
        let n = trimmed_end(s).len() as int;
        assert(s.drop_last().take(n) =~= s.take(n));
    } else {
        assert(s.take(s.len() as int) =~= s);
    }
}

/// A text without white space around it has none to lose.
pub proof fn law_trimmed_stays(s: Seq<char>)
    ensures
        trimmed(trimmed(s)) == trimmed(s),
{
    let t = trimmed_start(s);
    lemma_trimmed_start(s);
    lemma_trimmed_end(t);
}

/// Trimming takes away exactly the white space around a text: what is left of
/// white space, a text that neither begins nor ends with any, and white space
/// is that text.
pub proof fn law_trimmed_of(w: Seq<char>, x: Seq<char>, v: Seq<char>)
    requires
        forall|i: int| 0 <= i < w.len() ==> is_white_space(#[trigger] w[i]),
        forall|i: int| 0 <= i < v.len() ==> is_white_space(#[trigger] v[i]),
        x.len() > 0 ==> !is_white_space(x[0]) && !is_white_space(x.last()),
    ensures
        trimmed(w + x + v) == x,
{
    lemma_white_start(w, x + v);
    assert(w + x + v =~= w + (x + v));
    if x.len() == 0 {
        lemma_white_start(v, Seq::empty());
        assert(x + v =~= v + Seq::<char>::empty());
        assert(x =~= Seq::empty());
    } else {
        assert(trimmed_start(x + v) == x + v);
        lemma_white_end(x, v);
    }
}

proof fn lemma_white_start(w: Seq<char>, x: Seq<char>)
    requires
        forall|i: int| 0 <= i < w.len() ==> is_white_space(#[trigger] w[i]),
    ensures
        trimmed_start(w + x) == trimmed_start(x),
    decreases w.len(),
{
    if w.len() > 0 {
        let s = w + x;
        assert(s[0] == w[0]);
        assert(s.drop_first() =~= w.drop_first() + x);
        assert forall|i: int| 0 <= i < w.drop_first().len() implies is_white_space(
            #[trigger] w.drop_first()[i],
        ) by {
            assert(w.drop_first()[i] == w[i + 1]);
        }
        lemma_white_start(w.drop_first(), x);
    } else {
        assert(w + x =~= x);
    }
}

proof fn lemma_white_end(x: Seq<char>, v: Seq<char>)
    requires
        forall|i: int| 0 <= i < v.len() ==> is_white_space(#[trigger] v[i]),
        x.len() > 0,
        !is_white_space(x.last()),
    ensures
        trimmed_end(x + v) == x,
    decreases v.len(),
{
    if v.len() > 0 {
        let s = x + v;
        assert(s.last() == v[v.len() - 1]);
        assert(s.drop_last() =~= x + v.drop_last());
        assert forall|i: int| 0 <= i < v.drop_last().len() implies is_white_space(
            #[trigger] v.drop_last()[i],
        ) by {
            assert(v.drop_last()[i] == v[i]);
        }
        lemma_white_end(x, v.drop_last());
    } else {
        assert(x + v =~= x);
    }
}

/// A text without white space around it neither begins nor ends with any.
pub proof fn law_trimmed_ends(s: Seq<char>)
    ensures
        trimmed(s).len() > 0 ==> !is_white_space(trimmed(s)[0]) && !is_white_space(
            trimmed(s).last(),
        ),
{
    lemma_trimmed_start(s);
    lemma_trimmed_end(trimmed_start(s));
}

/// No piece holds a separator.
pub proof fn lemma_pieces_clean(s: Seq<char>, sep: spec_fn(char) -> bool)
    ensures
        pieces(s, sep).len() > 0,
        forall|j: int, k: int|
            0 <= j < pieces(s, sep).len() && 0 <= k < pieces(s, sep)[j].len() ==> !sep(
                #[trigger] pieces(s, sep)[j][k],
            ),
    decreases s.len(),
{
    if s.len() > 0 {
        let before = pieces(s.drop_last(), sep);
        let all = pieces(s, sep);
        lemma_pieces_clean(s.drop_last(), sep);
        assert forall|j: int, k: int|
            0 <= j < all.len() && 0 <= k < all[j].len() implies !sep(#[trigger] all[j][k]) by {
            if j < before.len() - 1 {
                assert(all[j] == before[j]);
                assert(!sep(before[j][k]));
            } else if sep(s.last()) {
                if j == before.len() - 1 {
                    assert(!sep(before[j][k]));
                }
            } else if k < before[j].len() {
                assert(!sep(before[j][k]));
            }
        }
    }
}

/// A text without separators is one piece.
pub proof fn lemma_one_piece(s: Seq<char>, sep: spec_fn(char) -> bool)
    requires
        forall|k: int| 0 <= k < s.len() ==> !sep(#[trigger] s[k]),
    ensures
        pieces(s, sep) == seq![s],
    decreases s.len(),
{
    if s.len() > 0 {
        lemma_one_piece(s.drop_last(), sep);
        assert(s.drop_last().push(s.last()) =~= s);
        assert(seq![s.drop_last()].drop_last() =~= Seq::empty());
        assert(pieces(s, sep) =~= seq![s]);
    } else {
        assert(s =~= Seq::empty());
    }
}

/// The pieces of two texts in a row: those of the first but the last, and those
/// of the last together with the second.
pub proof fn lemma_pieces_in_two(s: Seq<char>, t: Seq<char>, sep: spec_fn(char) -> bool)
    ensures
        pieces(s + t, sep) == pieces(s, sep).drop_last() + pieces(pieces(s, sep).last() + t, sep),
    decreases t.len(),
{
    lemma_pieces_clean(s, sep);
    let front = pieces(s, sep).drop_last();
    let open = pieces(s, sep).last();
    if t.len() == 0 {
        assert forall|k: int| 0 <= k < open.len() implies !sep(#[trigger] open[k]) by {
            assert(open[k] == pieces(s, sep)[pieces(s, sep).len() - 1][k]);
        }
        lemma_one_piece(open, sep);
        assert(s + t =~= s);
        assert(open + t =~= open);
        assert(front + seq![open] =~= pieces(s, sep));
    } else {
        lemma_pieces_in_two(s, t.drop_last(), sep);
        assert((s + t).drop_last() =~= s + t.drop_last());
        assert((open + t).drop_last() =~= open + t.drop_last());
        assert((s + t).last() == t.last());
        assert((open + t).last() == t.last());
        let rest = pieces(open + t.drop_last(), sep);
        lemma_pieces_clean(open + t.drop_last(), sep);
        let all = pieces(s + t.drop_last(), sep);
        assert(all == front + rest);
        assert(all.last() == rest.last());
        if sep(t.last()) {
            assert(all.push(Seq::empty()) =~= front + rest.push(Seq::empty()));
        } else {
            assert(all.drop_last() =~= front + rest.drop_last());
            assert(all.drop_last().push(all.last().push(t.last())) =~= front
                + rest.drop_last().push(rest.last().push(t.last())));
        }
    }
}

/// Dictionary order is total.
pub proof fn law_text_order_total(a: Seq<char>, b: Seq<char>)
    ensures
        text_le(a, b) || text_le(b, a),
        text_le(a, b) && text_le(b, a) ==> a == b,
    decreases a.len(),
{
    if a.len() == 0 || b.len() == 0 {
        if a.len() == b.len() {
            assert(a =~= b);
        }
    } else if a[0] == b[0] {
        law_text_order_total(a.drop_first(), b.drop_first());
        if text_le(a, b) && text_le(b, a) {
            assert(a =~= seq![a[0]] + a.drop_first());
            assert(b =~= seq![b[0]] + b.drop_first());
        }
    } else {
        lemma_char_codes(a[0], b[0]);
    }
}

/// Different characters have different scalar values.
proof fn lemma_char_codes(a: char, b: char)
    requires
        a != b,
    ensures
        (a as u32) < (b as u32) || (b as u32) < (a as u32),
{
}

/// Dictionary order is transitive.
pub proof fn law_text_order_transitive(a: Seq<char>, b: Seq<char>, c: Seq<char>)
    requires
        text_le(a, b),
        text_le(b, c),
    ensures
        text_le(a, c),
    decreases a.len(),
{
    if a.len() > 0 && a[0] == b[0] && b[0] == c[0] {
        law_text_order_transitive(a.drop_first(), b.drop_first(), c.drop_first());
    }
}

// ---------------------------------------------------------------------------
// The operations
// ---------------------------------------------------------------------------

/// The characters of a string.
pub fn chars_of(s: &str) -> (v: Vec<char>)
    ensures
        v@ == s@,
{
    let mut v: Vec<char> = Vec::new();
    for c in it: s.chars()
        invariant
            it.seq() == s@,
            v@ == s@.take(it.index()),
    {
        v.push(c);
    }
    v
}

/// The string of some characters.
pub fn text_of(v: &Vec<char>) -> (s: String)
    ensures
        s@ == v@,
{
    let mut s = String::new();
    for i in 0..v.len()
        invariant
            s@ == v@.take(i as int),
    {
        s.push(v[i]);
    }
    s
}

/// The characters from `from` up to `to`.
pub fn sub_chars(v: &Vec<char>, from: usize, to: usize) -> (r: Vec<char>)
    requires
        from <= to <= v.len(),
    ensures
        r@ == v@.subrange(from as int, to as int),
{
    let mut r: Vec<char> = Vec::new();
    for i in from..to
        invariant
            to <= v.len(),
            from <= i <= to,
            r@ == v@.subrange(from as int, i as int),
    {
        r.push(v[i]);
    }
    r
}

/// Whether two texts are the same.
pub fn text_eq(a: &str, b: &str) -> (r: bool)
    ensures
        r == (a@ == b@),
{
    let x = chars_of(a);
    let y = chars_of(b);
    if x.len() != y.len() {
        return false;
    }
    for i in 0..x.len()
        invariant
            x.len() == y.len(),
            x@ == a@,
            y@ == b@,
            forall|j: int| 0 <= j < i ==> x@[j] == y@[j],
    {
        if x[i] != y[i] {
            return false;
        }
    }
    assert(x@ =~= y@);
    true
}

/// The number of characters.
pub fn char_count(s: &str) -> (n: usize)
    ensures
        n == s@.len(),
{
    chars_of(s).len()
}

/// The characters without the white space around them.
pub fn trim_chars(v: &Vec<char>) -> (r: Vec<char>)
    ensures
        r@ == trimmed(v@),
{
    let mut from: usize = 0;
    let n = v.len();
    assert(v@.skip(0) =~= v@);
    while from < n && v[from].is_whitespace()
        invariant
            n == v.len(),
            from <= n,
            trimmed_start(v@) == trimmed_start(v@.skip(from as int)),
        decreases n - from,
    {
        assert(v@.skip(from as int).drop_first() =~= v@.skip(from + 1));
        from = from + 1;
    }
    assert(trimmed_start(v@) =~= v@.skip(from as int));
    let ghost mid = v@.skip(from as int);
    let mut to: usize = n;
    assert(v@.subrange(from as int, n as int) =~= mid);
    while to > from && v[to - 1].is_whitespace()
        invariant
            n == v.len(),
            from <= to <= n,
            trimmed_end(mid) == trimmed_end(v@.subrange(from as int, to as int)),
        decreases to - from,
    {
        assert(v@.subrange(from as int, to as int).drop_last() =~= v@.subrange(
            from as int,
            to - 1,
        ));
        to = to - 1;
    }
    sub_chars(v, from, to)
}

/// The text without the white space around it.
pub fn trim(s: &str) -> (r: String)
    ensures
        r@ == trimmed(s@),
{
    text_of(&trim_chars(&chars_of(s)))
}

/// Whether the text is empty but for white space.
pub fn blank(s: &str) -> (r: bool)
    ensures
        r == is_blank(s@),
{
    trim_chars(&chars_of(s)).len() == 0
}

/// At most `max_chars` characters from the front.
pub fn clip_chars(input: &str, max_chars: usize) -> (r: String)
    ensures
        r@ == clipped(input@, max_chars as int),
{
    let v = chars_of(input);
    if v.len() <= max_chars {
        return input.to_owned();
    }
    text_of(&sub_chars(&v, 0, max_chars))
}

/// The characters before the first that is zero.
pub fn cut_at_nul(v: &Vec<char>) -> (r: Vec<char>)
    ensures
        r@ == before_nul(v@),
{
    let mut i: usize = 0;
    assert(v@.take(0) + before_nul(v@.skip(0)) =~= before_nul(v@)) by {
        assert(v@.skip(0) =~= v@);
    }
    while i < v.len() && v[i] != '\0'
        invariant
            i <= v.len(),
            before_nul(v@) == v@.take(i as int) + before_nul(v@.skip(i as int)),
        decreases v.len() - i,
    {
        proof {
            let rest = v@.skip(i as int);
            assert(rest.drop_first() =~= v@.skip(i + 1));
            assert(v@.take(i as int) + (seq![rest[0]] + before_nul(v@.skip(i + 1))) =~= v@.take(
                i + 1,
            ) + before_nul(v@.skip(i + 1)));
        }
        i = i + 1;
    }
    let r = sub_chars(v, 0, i);
    assert(r@ =~= before_nul(v@));
    r
}

/// A text up to its first character zero.
pub fn text_before_nul(s: &str) -> (r: String)
    ensures
        r@ == before_nul(s@),
{
    text_of(&cut_at_nul(&chars_of(s)))
}

/// Whether `p` stands in `v` at position `i`.
pub fn occurs(v: &Vec<char>, p: &Vec<char>, i: usize) -> (r: bool)
    ensures
        r == occurs_at(v@, p@, i as int),
{
    if i > v.len() || p.len() > v.len() - i {
        return false;
    }
    let ghost part = v@.subrange(i as int, i + p@.len());
    for j in 0..p.len()
        invariant
            i + p.len() <= v.len(),
            part == v@.subrange(i as int, i + p@.len()),
            forall|k: int| 0 <= k < j ==> part[k] == p@[k],
    {
        if v[i + j] != p[j] {
            assert(part[j as int] != p@[j as int]);
            return false;
        }
    }
    assert(part =~= p@);
    true
}

/// The first position at or after `from` where `p` stands in `v`.
pub fn find_chars(v: &Vec<char>, p: &Vec<char>, from: usize) -> (r: Option<usize>)
    ensures
        match r {
            Some(i) => found_from(v@, p@, from as int) == Some(i as int),
            None => found_from(v@, p@, from as int) is None,
        },
{
    let mut i = from;
    while i <= v.len() && p.len() <= v.len() - i
        invariant
            found_from(v@, p@, from as int) == found_from(v@, p@, i as int),
            i <= v.len() + 1 || i == from,
        decreases v.len() + 1 - i,
    {
        if occurs(v, p, i) {
            return Some(i);
        }
        proof {
            if p.len() == 0 {
                assert(v@.subrange(i as int, i + p@.len()) =~= p@);
            }
        }
        i = i + 1;
    }
    None
}

/// A text is found from some position on if and only if it stands at one.
pub proof fn lemma_found_from(s: Seq<char>, p: Seq<char>, from: int)
    requires
        0 <= from,
    ensures
        match found_from(s, p, from) {
            Some(i) => from <= i && occurs_at(s, p, i) && forall|j: int|
                from <= j < i ==> !occurs_at(s, p, j),
            None => forall|j: int| from <= j ==> !occurs_at(s, p, j),
        },
    decreases s.len() + 1 - from,
{
    if from + p.len() <= s.len() && !occurs_at(s, p, from) {
        lemma_found_from(s, p, from + 1);
    }
}

/// Whether `p` is a part of the characters.
pub fn contains_chars(v: &Vec<char>, p: &Vec<char>) -> (r: bool)
    ensures
        r == has_part(v@, p@),
{
    proof {
        lemma_found_from(v@, p@, 0);
    }
    find_chars(v, p, 0).is_some()
}

/// Whether `p` is a part of `s`.
pub fn contains(s: &str, p: &str) -> (r: bool)
    ensures
        r == has_part(s@, p@),
{
    contains_chars(&chars_of(s), &chars_of(p))
}

/// Whether one of `keys` is a part of `text`.
pub fn contains_any(text: &str, keys: &[&str]) -> (r: bool)
    ensures
        r == has_any(text@, strs(keys@)),
{
    let v = chars_of(text);
    for i in 0..keys.len()
        invariant
            v@ == text@,
            forall|k: int| 0 <= k < i ==> !has_part(text@, #[trigger] strs(keys@)[k]),
    {
        if contains_chars(&v, &chars_of(keys[i])) {
            assert(has_part(text@, strs(keys@)[i as int]));
            return true;
        }
    }
    false
}

/// Whether `s` begins with `p`.
pub fn starts_with(s: &str, p: &str) -> (r: bool)
    ensures
        r == starts(s@, p@),
{
    let v = chars_of(s);
    let w = chars_of(p);
    let r = occurs(&v, &w, 0);
    assert(w.len() <= v.len() ==> v@.subrange(0, w@.len() as int) =~= v@.take(w@.len() as int));
    r
}

/// Whether `s` ends with `p`.
pub fn ends_with(s: &str, p: &str) -> (r: bool)
    ensures
        r == ends(s@, p@),
{
    let v = chars_of(s);
    let w = chars_of(p);
    if w.len() > v.len() {
        return false;
    }
    let at = v.len() - w.len();
    assert(v@.subrange(at as int, at + w@.len()) =~= v@.skip(at as int));
    occurs(&v, &w, at)
}

/// The pieces between the characters of `seps`, empty ones included.
pub fn split_any(s: &str, seps: &[char]) -> (r: Vec<String>)
    ensures
        texts(r@) == pieces(s@, |c: char| seps@.contains(c)),
{
    let v = chars_of(s);
    let ghost sep = |c: char| seps@.contains(c);
    let mut done: Vec<String> = Vec::new();
    let mut cur: String = String::new();
    for i in 0..v.len()
        invariant
            v@ == s@,
            sep == (|c: char| seps@.contains(c)),
            texts(done@).push(cur@) == pieces(s@.take(i as int), sep),
    {
        assert(s@.take(i + 1).drop_last() =~= s@.take(i as int));
        let ghost before = pieces(s@.take(i as int), sep);
        assert(before.drop_last() =~= texts(done@));
        if char_in(v[i], seps) {
            let ghost old_done = texts(done@).push(cur@);
            done.push(cur);
            assert(texts(done@) =~= old_done);
            cur = String::new();
        } else {
            cur.push(v[i]);
        }
    }
    assert(s@.take(v.len() as int) =~= s@);
    let ghost old_done = texts(done@).push(cur@);
    done.push(cur);
    assert(texts(done@) =~= old_done);
    done
}

/// Whether `c` is one of `set`.
pub fn char_in(c: char, set: &[char]) -> (r: bool)
    ensures
        r == set@.contains(c),
{
    for i in 0..set.len()
        invariant
            forall|j: int| 0 <= j < i ==> set@[j] != c,
    {
        if set[i] == c {
            return true;
        }
    }
    false
}

/// The runs of characters between white space.
pub fn split_whitespace(s: &str) -> (r: Vec<String>)
    ensures
        texts(r@) == words(s@),
{
    let v = chars_of(s);
    let ghost sep = is_space();
    let ghost full = is_filled();
    let mut done: Vec<String> = Vec::new();
    let mut cur: String = String::new();
    proof {
        reveal_with_fuel(Seq::filter, 2);
        assert(pieces(s@.take(0), sep).drop_last() =~= Seq::empty());
    }
    for i in 0..v.len()
        invariant
            v@ == s@,
            sep == is_space(),
            full == is_filled(),
            pieces(s@.take(i as int), sep).len() > 0,
            pieces(s@.take(i as int), sep).last() == cur@,
            texts(done@) == pieces(s@.take(i as int), sep).drop_last().filter(full),
    {
        assert(s@.take(i + 1).drop_last() =~= s@.take(i as int));
        let ghost before = pieces(s@.take(i as int), sep);
        let ghost after = pieces(s@.take(i + 1), sep);
        if v[i].is_whitespace() {
            proof {
                assert(after.drop_last() =~= before);
                reveal_with_fuel(Seq::filter, 2);
            }
            if !cur.as_str().is_empty() {
                let ghost old_done = texts(done@).push(cur@);
                done.push(cur);
                assert(texts(done@) =~= old_done);
            }
            cur = String::new();
        } else {
            assert(after.drop_last() =~= before.drop_last());
            cur.push(v[i]);
        }
    }
    assert(s@.take(v.len() as int) =~= s@);
    proof {
        reveal_with_fuel(Seq::filter, 2);
    }
    if !cur.as_str().is_empty() {
        let ghost old_done = texts(done@).push(cur@);
        done.push(cur);
        assert(texts(done@) =~= old_done);
    }
    done
}

/// The parts one after the other with `sep` between them.
pub fn join(parts: &Vec<String>, sep: &str) -> (r: String)
    ensures
        r@ == joined(texts(parts@), sep@),
{
    let mut r = String::new();
    for i in 0..parts.len()
        invariant
            r@ == joined(texts(parts@).take(i as int), sep@),
    {
        let ghost t = texts(parts@).take(i + 1);
        assert(t.drop_last() =~= texts(parts@).take(i as int));
        if i > 0 {
            r.append(sep);
        }
        r.append(parts[i].as_str());
    }
    assert(texts(parts@).take(parts@.len() as int) =~= texts(parts@));
    r
}

/// The text with every `c` replaced by `with`.
pub fn replace_char(s: &str, c: char, with: &str) -> (r: String)
    ensures
        r@ == replaced(s@, c, with@),
{
    let v = chars_of(s);
    let mut r = String::new();
    for i in 0..v.len()
        invariant
            v@ == s@,
            r@ == replaced(s@.take(i as int), c, with@),
    {
        assert(s@.take(i + 1).drop_last() =~= s@.take(i as int));
        if v[i] == c {
            r.append(with);
        } else {
            r.push(v[i]);
        }
    }
    assert(s@.take(v.len() as int) =~= s@);
    r
}

/// The words of a text with one blank between them.
pub fn flatten_spaces(input: &str) -> (r: String)
    ensures
        r@ == flattened(input@),
{
    let parts = split_whitespace(input);
    proof {
        reveal_strlit(" ");
        assert(" "@ =~= seq![' ']);
    }
    join(&parts, " ")
}

/// A character in ASCII lower case.
pub fn to_ascii_lower(c: char) -> (r: char)
    ensures
        r == ascii_lower(c),
{
    if 'A' <= c && c <= 'Z' {
        ((c as u8) + 32) as char
    } else {
        c
    }
}

/// Whether two texts differ at most in the case of ASCII letters.
pub fn eq_ignore_ascii_case(a: &str, b: &str) -> (r: bool)
    ensures
        r == same_ignoring_ascii_case(a@, b@),
{
    let x = chars_of(a);
    let y = chars_of(b);
    if x.len() != y.len() {
        assert(ascii_lowered(a@).len() != ascii_lowered(b@).len());
        return false;
    }
    for i in 0..x.len()
        invariant
            x.len() == y.len(),
            x@ == a@,
            y@ == b@,
            forall|j: int| 0 <= j < i ==> ascii_lower(x@[j]) == ascii_lower(y@[j]),
    {
        if to_ascii_lower(x[i]) != to_ascii_lower(y[i]) {
            assert(ascii_lowered(a@)[i as int] != ascii_lowered(b@)[i as int]);
            return false;
        }
    }
    assert(ascii_lowered(a@) =~= ascii_lowered(b@));
    true
}

/// Whether `a` comes before `b` in dictionary order or equals it.
pub fn le_text(a: &str, b: &str) -> (r: bool)
    ensures
        r == text_le(a@, b@),
{
    let x = chars_of(a);
    let y = chars_of(b);
    let mut i: usize = 0;
    assert(x@.skip(0) =~= x@ && y@.skip(0) =~= y@);
    while i < x.len() && i < y.len()
        invariant
            x@ == a@,
            y@ == b@,
            i <= x.len(),
            i <= y.len(),
            text_le(a@, b@) == text_le(a@.skip(i as int), b@.skip(i as int)),
        decreases x.len() - i,
    {
        if x[i] != y[i] {
            return (x[i] as u32) < (y[i] as u32);
        }
        assert(a@.skip(i as int).drop_first() =~= a@.skip(i + 1));
        assert(b@.skip(i as int).drop_first() =~= b@.skip(i + 1));
        i = i + 1;
    }
    i == x.len()
}

} // verus!
