//! What texts are made of: parts, pieces, words and numbers.
use vstd::prelude::*;
use crate::numbers::{decimal, parsed};
use crate::text::{
    ascii_lower, before_nul, clipped, ends, flattened, has_part, is_filled, is_space,
    is_white_space, joined, occurs_at, pieces, replaced, same_ignoring_ascii_case, starts, words,
};

verus! {

/// A text is a part of another where that is something, the text and something;
/// it begins it where nothing comes before, and ends it where nothing follows.
pub proof fn law_parts(a: Seq<char>, p: Seq<char>, b: Seq<char>, s: Seq<char>)
    ensures
        has_part(a + p + b, p),
        starts(p + b, p),
        ends(a + p, p),
        has_part(s, p) ==> exists|x: Seq<char>, y: Seq<char>| s == #[trigger] (x + p + y),
        starts(s, p) ==> s == p + s.skip(p.len() as int),
        ends(s, p) ==> s == s.take(s.len() - p.len()) + p,
{
    let n = a.len() as int;
    assert((a + p + b).subrange(n, n + p.len()) =~= p);
    assert(occurs_at(a + p + b, p, n));
    assert((p + b).take(p.len() as int) =~= p);
    assert((a + p).skip(n) =~= p);
    if has_part(s, p) {
        let i = choose|i: int| occurs_at(s, p, i);
        let x = s.take(i);
        let y = s.skip(i + p.len());
        assert(s =~= x + p + y) by {
            assert(s.subrange(i, i + p.len()) == p);
            assert(s =~= x + s.subrange(i, i + p.len()) + y);
        }
    }
    if starts(s, p) {
        assert(s =~= s.take(p.len() as int) + s.skip(p.len() as int));
    }
    if ends(s, p) {
        assert(s =~= s.take(s.len() - p.len()) + s.skip(s.len() - p.len()));
    }
}

/// A text is cut to so many characters from its front, and stays where it has no
/// more.
pub proof fn law_clipping(s: Seq<char>, max: int)
    requires
        max >= 0,
    ensures
        clipped(s, max).len() <= max,
        clipped(s, max).len() == s.len() || clipped(s, max).len() == max,
        starts(s, clipped(s, max)),
        s.len() <= max ==> clipped(s, max) == s,
{
    assert(s.take(clipped(s, max).len() as int) =~= clipped(s, max));
}

/// Texts are joined one after the other with something between them.
pub proof fn law_joining(parts: Seq<Seq<char>>, x: Seq<char>, sep: Seq<char>)
    ensures
        joined(Seq::empty(), sep).len() == 0,
        joined(seq![x], sep) == x,
        parts.len() > 0 ==> joined(parts.push(x), sep) == joined(parts, sep) + sep + x,
{
    assert(parts.push(x).drop_last() =~= parts);
}

/// Every character of one kind is replaced, and no other.
pub proof fn law_replacing(s: Seq<char>, x: char, c: char, with: Seq<char>)
    ensures
        replaced(Seq::empty(), c, with).len() == 0,
        x == c ==> replaced(s.push(x), c, with) == replaced(s, c, with) + with,
        x != c ==> replaced(s.push(x), c, with) == replaced(s, c, with).push(x),
{
    assert(s.push(x).drop_last() =~= s);
}

/// A text that is cut at a character is its pieces with that character between
/// them.
pub proof fn law_pieces_make_the_text(s: Seq<char>, c: char)
    ensures
        joined(pieces(s, |x: char| x == c), seq![c]) == s,
        pieces(s, |x: char| x == c).len() > 0,
    decreases s.len(),
{
    let sep = |x: char| x == c;
    let all = pieces(s, sep);
    if s.len() == 0 {
        assert(joined(all, seq![c]) =~= s);
    } else {
        law_pieces_make_the_text(s.drop_last(), c);
        let before = pieces(s.drop_last(), sep);
        let t = joined(before, seq![c]);
        assert(t == s.drop_last());
        if s.last() == c {
            assert(all.drop_last() =~= before);
            assert(joined(all, seq![c]) =~= t + seq![c] + Seq::<char>::empty());
            assert(t + seq![c] + Seq::<char>::empty() =~= s);
        } else {
            let front = before.drop_last();
            assert(all.drop_last() =~= front);
            assert(all.last() == before.last().push(s.last()));
            if before.len() == 1 {
                assert(joined(all, seq![c]) =~= s);
            } else {
                let u = joined(front, seq![c]);
                assert(t == u + seq![c] + before.last());
                assert(joined(all, seq![c]) == u + seq![c] + all.last());
                assert(u + seq![c] + all.last() =~= (u + seq![c] + before.last()).push(s.last()));
                assert(s.drop_last().push(s.last()) =~= s);
            }
        }
    }
}

/// The characters that are no white space, in their order.
pub open spec fn letters(s: Seq<char>) -> Seq<char>
    decreases s.len(),
{
    if s.len() == 0 {
        s
    } else if is_white_space(s.last()) {
        letters(s.drop_last())
    } else {
        letters(s.drop_last()).push(s.last())
    }
}

/// All texts one after the other.
spec fn in_a_row(parts: Seq<Seq<char>>) -> Seq<char>
    decreases parts.len(),
{
    if parts.len() == 0 {
        Seq::empty()
    } else {
        in_a_row(parts.drop_last()) + parts.last()
    }
}

/// Putting single blanks between the words of a text loses none of its other
/// characters, and keeps their order.
pub proof fn law_single_blanks_keep_the_letters(s: Seq<char>)
    ensures
        letters(flattened(s)) == letters(s),
{
    let parts = pieces(s, is_space());
    lemma_pieces_letters(s);
    lemma_filled_in_a_row(parts);
    crate::text::lemma_pieces_clean(s, is_space());
    let list = words(s);
    assert forall|i: int, k: int|
        0 <= i < list.len() && 0 <= k < list[i].len() implies !is_white_space(
        #[trigger] list[i][k],
    ) by {
        let j = crate::db::soundness::lemma_filter_member(parts, is_filled(), i);
        assert(!is_space()(parts[j][k]));
    }
    lemma_joined_letters(list);
}

proof fn lemma_pieces_letters(s: Seq<char>)
    ensures
        in_a_row(pieces(s, is_space())) == letters(s),
        pieces(s, is_space()).len() > 0,
    decreases s.len(),
{
    let all = pieces(s, is_space());
    if s.len() == 0 {
        assert(all.drop_last() =~= Seq::empty());
        assert(in_a_row(all.drop_last()) =~= Seq::empty());
        assert(in_a_row(all) =~= letters(s));
    } else {
        lemma_pieces_letters(s.drop_last());
        let before = pieces(s.drop_last(), is_space());
        if is_white_space(s.last()) {
            assert(all.drop_last() =~= before);
            assert(in_a_row(before) + Seq::<char>::empty() =~= in_a_row(before));
        } else {
            assert(all.drop_last() =~= before.drop_last());
            assert(in_a_row(all) =~= (in_a_row(before.drop_last()) + before.last()).push(s.last()));
        }
    }
}

proof fn lemma_filled_in_a_row(parts: Seq<Seq<char>>)
    ensures
        in_a_row(parts.filter(is_filled())) == in_a_row(parts),
    decreases parts.len(),
{
    reveal(Seq::filter);
    if parts.len() > 0 {
        let front = parts.drop_last();
        lemma_filled_in_a_row(front);
        let kept = front.filter(is_filled());
        if parts.last().len() > 0 {
            assert(kept.push(parts.last()).drop_last() =~= kept);
        } else {
            assert(in_a_row(front) + parts.last() =~= in_a_row(front));
        }
    } else {
        assert(parts.filter(is_filled()) =~= parts);
    }
}

proof fn lemma_letters_add(a: Seq<char>, b: Seq<char>)
    ensures
        letters(a + b) == letters(a) + letters(b),
    decreases b.len(),
{
    if b.len() == 0 {
        assert(a + b =~= a);
        assert(letters(a) + letters(b) =~= letters(a));
    } else {
        lemma_letters_add(a, b.drop_last());
        assert((a + b).drop_last() =~= a + b.drop_last());
        assert((a + b).last() == b.last());
        assert((letters(a) + letters(b.drop_last())).push(b.last()) =~= letters(a) + letters(
            b.drop_last(),
        ).push(b.last()));
    }
}

proof fn lemma_all_letters(s: Seq<char>)
    requires
        forall|k: int| 0 <= k < s.len() ==> !is_white_space(#[trigger] s[k]),
    ensures
        letters(s) == s,
    decreases s.len(),
{
    if s.len() > 0 {
        let front = s.drop_last();
        assert forall|k: int| 0 <= k < front.len() implies !is_white_space(#[trigger] front[k]) by {
            assert(front[k] == s[k]);
        }
        lemma_all_letters(front);
        assert(!is_white_space(s[s.len() - 1]));
        assert(front.push(s.last()) =~= s);
    }
}

proof fn lemma_joined_letters(list: Seq<Seq<char>>)
    requires
        forall|i: int, k: int|
            0 <= i < list.len() && 0 <= k < list[i].len() ==> !is_white_space(
                #[trigger] list[i][k],
            ),
    ensures
        letters(joined(list, seq![' '])) == in_a_row(list),
    decreases list.len(),
{
    if list.len() == 0 {
        assert(letters(joined(list, seq![' '])) =~= in_a_row(list));
    } else {
        let front = list.drop_last();
        let last = list.last();
        assert forall|i: int, k: int|
            0 <= i < front.len() && 0 <= k < front[i].len() implies !is_white_space(
            #[trigger] front[i][k],
        ) by {
            assert(!is_white_space(list[i][k]));
        }
        assert forall|k: int| 0 <= k < last.len() implies !is_white_space(#[trigger] last[k]) by {
            assert(!is_white_space(list[list.len() - 1][k]));
        }
        lemma_all_letters(last);
        if list.len() == 1 {
            assert(front =~= Seq::empty());
            assert(Seq::<char>::empty() + last =~= last);
            assert(joined(list, seq![' ']) == last);
            assert(in_a_row(front) =~= Seq::<char>::empty());
            assert(in_a_row(list) =~= last);
        } else {
            lemma_joined_letters(front);
            let t = joined(front, seq![' ']);
            lemma_letters_add(t + seq![' '], last);
            lemma_letters_add(t, seq![' ']);
            let one = seq![' '];
            assert(one.drop_last() =~= Seq::<char>::empty());
            assert(one.last() == ' ');
            assert(letters(one.drop_last()) =~= Seq::<char>::empty());
            assert(letters(one) == letters(one.drop_last()));
            assert(letters(t) + Seq::<char>::empty() =~= letters(t));
        }
    }
}

/// ASCII letters are the same in either case; no other characters are.
pub proof fn law_either_case(a: Seq<char>, b: Seq<char>, c: char)
    ensures
        'A' <= c <= 'Z' ==> ascii_lower(c) as u32 == c as u32 + 32,
        !('A' <= c <= 'Z') ==> ascii_lower(c) == c,
        same_ignoring_ascii_case(a, a),
        same_ignoring_ascii_case(a, b) <==> a.len() == b.len() && forall|i: int|
            0 <= i < a.len() ==> ascii_lower(#[trigger] a[i]) == ascii_lower(b[i]),
{
    let x = crate::text::ascii_lowered(a);
    let y = crate::text::ascii_lowered(b);
    if same_ignoring_ascii_case(a, b) {
        assert(x.len() == y.len());
        assert forall|i: int| 0 <= i < a.len() implies ascii_lower(#[trigger] a[i]) == ascii_lower(
            b[i],
        ) by {
            assert(x[i] == y[i]);
        }
    }
    if a.len() == b.len() && forall|i: int|
        0 <= i < a.len() ==> ascii_lower(#[trigger] a[i]) == ascii_lower(b[i]) {
        assert(x =~= y);
    }
}

/// A text ends before its first character zero.
pub proof fn law_texts_end_before_zero(a: Seq<char>, b: Seq<char>)
    requires
        !a.contains('\0'),
    ensures
        before_nul(a) == a,
        before_nul(a.push('\0') + b) == a,
    decreases a.len(),
{
    if a.len() > 0 {
        let rest = a.drop_first();
        assert(a.contains(a[0]));
        if rest.contains('\0') {
            let k = rest.index_of('\0');
            assert(a[k + 1] == '\0');
        }
        law_texts_end_before_zero(rest, b);
        assert(seq![a[0]] + rest =~= a);
        assert((a.push('\0') + b).drop_first() =~= rest.push('\0') + b);
    } else {
        assert(before_nul(a) =~= a);
        assert(before_nul(a.push('\0') + b) =~= a);
    }
}

/// A number is written in decimal digits without leading zeros, a negative one
/// behind a minus.
pub proof fn law_decimals(n: int, d: int)
    requires
        n > 0,
        0 <= d <= 9,
    ensures
        decimal(10 * n + d) == decimal(n).push((d + 48) as char),
        decimal(d) == seq![(d + 48) as char],
        decimal(-n) == seq!['-'] + decimal(n),
        parsed(seq![(d + 48) as char]) == Some(d),
{
    assert((10 * n + d) / 10 == n);
    assert((10 * n + d) % 10 == d);
    let s = seq![(d + 48) as char];
    assert(crate::numbers::digits_value(s) == Some(d as nat));
}

} // verus!
