//! What holds of lists of lines that are kept as a text.
use vstd::prelude::*;
use crate::db::soundness::{lemma_filter_all, lemma_filter_member};
use crate::files::lemma_trimmed_part;
use crate::memory::{ends_line, filled_lines, newest, trimming, with_line};
use crate::text::{
    flattened, is_filled, is_space, is_white_space, joined, law_trimmed_stays, lemma_one_piece,
    lemma_pieces_clean, lemma_pieces_in_two, pieces, trimmed, trimmed_end, trimmed_start, words,
};

verus! {

/// A text that can be a line of its own: not empty, without white space around
/// it and without a line end.
pub open spec fn is_line(s: Seq<char>) -> bool {
    s.len() > 0 && trimmed(s) == s && !s.contains('\n')
}

/// Lines that are joined and cut again are the same lines.
proof fn lemma_pieces_joined(items: Seq<Seq<char>>)
    requires
        items.len() > 0,
        forall|i: int| 0 <= i < items.len() ==> !(#[trigger] items[i]).contains('\n'),
    ensures
        pieces(joined(items, "\n"@), ends_line()) == items,
    decreases items.len(),
{
    reveal_strlit("\n");
    let sep = ends_line();
    if items.len() == 1 {
        assert forall|k: int| 0 <= k < items[0].len() implies !sep(#[trigger] items[0][k]) by {
            assert(items[0].contains(items[0][k]));
        }
        lemma_one_piece(items[0], sep);
        assert(seq![items[0]] =~= items);
    } else {
        let front = items.drop_last();
        let last = items.last();
        assert(items[items.len() - 1] == last);
        assert forall|i: int| 0 <= i < front.len() implies !(#[trigger] front[i]).contains(
            '\n',
        ) by {
            assert(front[i] == items[i]);
        }
        lemma_pieces_joined(front);
        let s = joined(front, "\n"@);
        let x = front.last();
        assert(x == items[items.len() - 2]);
        assert(s + "\n"@ + last =~= s + ("\n"@ + last));
        lemma_pieces_in_two(s, "\n"@ + last, sep);
        assert(x + ("\n"@ + last) =~= (x + "\n"@) + last);
        lemma_pieces_in_two(x + "\n"@, last, sep);
        assert forall|k: int| 0 <= k < x.len() implies !sep(#[trigger] x[k]) by {
            assert(x.contains(x[k]));
        }
        assert forall|k: int| 0 <= k < last.len() implies !sep(#[trigger] last[k]) by {
            assert(last.contains(last[k]));
        }
        lemma_one_piece(x, sep);
        lemma_one_piece(last, sep);
        assert((x + "\n"@).drop_last() =~= x);
        assert((x + "\n"@).last() == '\n');
        assert(pieces(x + "\n"@, sep) =~= seq![x, Seq::empty()]);
        assert(Seq::<char>::empty() + last =~= last);
        assert(pieces(x + "\n"@, sep).drop_last() =~= seq![x]);
        assert(pieces((x + "\n"@) + last, sep) =~= seq![x, last]);
        assert(front.drop_last() + seq![x, last] =~= items);
    }
}

/// Lines that are joined to a text are the lines of that text.
pub proof fn law_lines_read_back(items: Seq<Seq<char>>)
    requires
        forall|i: int| 0 <= i < items.len() ==> is_line(#[trigger] items[i]),
    ensures
        filled_lines(joined(items, "\n"@)) == items,
{
    if items.len() == 0 {
        let s = joined(items, "\n"@);
        let all = pieces(s, ends_line()).map_values(trimming());
        assert(all =~= seq![Seq::empty()]);
        reveal_with_fuel(Seq::filter, 2);
        assert(all.drop_last() =~= Seq::empty());
        assert(filled_lines(s) =~= items);
    } else {
        lemma_pieces_joined(items);
        assert(items.map_values(trimming()) =~= items);
        lemma_filter_all(items, is_filled());
    }
}

/// The lines of a text can be lines of their own.
pub proof fn law_filled_lines(s: Seq<char>)
    ensures
        forall|i: int| 0 <= i < filled_lines(s).len() ==> is_line(#[trigger] filled_lines(s)[i]),
{
    let parts = pieces(s, ends_line());
    let all = parts.map_values(trimming());
    lemma_pieces_clean(s, ends_line());
    assert forall|i: int| 0 <= i < filled_lines(s).len() implies is_line(
        #[trigger] filled_lines(s)[i],
    ) by {
        let j = lemma_filter_member(all, is_filled(), i);
        let x = parts[j];
        law_trimmed_stays(x);
        lemma_trimmed_part(x);
        let (a, b) = choose|a: int, b: int|
            0 <= a <= b <= x.len() && #[trigger] x.subrange(a, b) == trimmed(x);
        if trimmed(x).contains('\n') {
            let k = trimmed(x).index_of('\n');
            assert(x[a + k] == '\n');
            assert(!ends_line()(parts[j][a + k]));
        }
    }
}

/// Words with blanks between them begin and end in no white space, and hold
/// none but blanks.
proof fn lemma_joined_words(list: Seq<Seq<char>>)
    requires
        list.len() > 0,
        forall|i: int|
            0 <= i < list.len() ==> (#[trigger] list[i]).len() > 0 && forall|k: int|
                0 <= k < list[i].len() ==> !is_white_space(#[trigger] list[i][k]),
    ensures
        ({
            let s = joined(list, seq![' ']);
            &&& s.len() > 0
            &&& !is_white_space(s[0])
            &&& !is_white_space(s.last())
            &&& forall|k: int| 0 <= k < s.len() ==> #[trigger] s[k] == ' ' || !is_white_space(s[k])
        }),
    decreases list.len(),
{
    let s = joined(list, seq![' ']);
    let last = list.last();
    assert(list[list.len() - 1] == last);
    assert(!is_white_space(list[list.len() - 1][0]));
    assert(!is_white_space(list[list.len() - 1][last.len() - 1]));
    if list.len() == 1 {
        assert forall|k: int| 0 <= k < s.len() implies #[trigger] s[k] == ' ' || !is_white_space(
            s[k],
        ) by {
            assert(!is_white_space(list[0][k]));
        }
    } else {
        let front = list.drop_last();
        assert forall|i: int| 0 <= i < front.len() implies (#[trigger] front[i]).len() > 0
            && forall|k: int| 0 <= k < front[i].len() ==> !is_white_space(
            #[trigger] front[i][k],
        ) by {
            assert(front[i] == list[i]);
        }
        lemma_joined_words(front);
        let t = joined(front, seq![' ']);
        assert(s == t + seq![' '] + last);
        assert(s[0] == t[0]);
        assert(s.last() == last.last());
        assert forall|k: int| 0 <= k < s.len() implies #[trigger] s[k] == ' ' || !is_white_space(
            s[k],
        ) by {
            if k < t.len() {
                assert(s[k] == t[k]);
            } else if k > t.len() {
                assert(s[k] == last[k - t.len() - 1]);
                assert(!is_white_space(list[list.len() - 1][k - t.len() - 1]));
            }
        }
    }
}

/// A text with single blanks, where it is not empty, can be a line of its own.
pub proof fn law_flattened_is_line(s: Seq<char>)
    ensures
        flattened(s).len() > 0 ==> is_line(flattened(s)),
{
    let parts = pieces(s, is_space());
    let list = words(s);
    lemma_pieces_clean(s, is_space());
    if flattened(s).len() > 0 {
        assert(list.len() > 0);
        assert forall|i: int| 0 <= i < list.len() implies (#[trigger] list[i]).len() > 0
            && forall|k: int| 0 <= k < list[i].len() ==> !is_white_space(#[trigger] list[i][k]) by {
            let j = lemma_filter_member(parts, is_filled(), i);
            assert forall|k: int| 0 <= k < list[i].len() implies !is_white_space(
                #[trigger] list[i][k],
            ) by {
                assert(!is_space()(parts[j][k]));
            }
        }
        lemma_joined_words(list);
        let t = flattened(s);
        assert(trimmed_start(t) == t);
        assert(trimmed_end(t) == t);
        if t.contains('\n') {
            let k = t.index_of('\n');
            assert(t[k] == ' ' || !is_white_space(t[k]));
        }
    }
}

/// Adding a line twice is adding it once.
pub proof fn law_adding_a_line_twice(base: Seq<char>, line: Seq<char>, max_lines: int)
    requires
        0 <= max_lines,
    ensures
        with_line(with_line(base, line, max_lines), line, max_lines) == with_line(
            base,
            line,
            max_lines,
        ),
{
    let clean = flattened(trimmed(line));
    let items = filled_lines(base);
    law_filled_lines(base);
    law_flattened_is_line(trimmed(line));
    if clean.len() > 0 {
        if items.contains(clean) {
            law_lines_read_back(items);
        } else {
            let all = items.push(clean);
            let kept = newest(all, max_lines);
            assert forall|i: int| 0 <= i < kept.len() implies is_line(#[trigger] kept[i]) by {
                let j = i + all.len() - kept.len();
                assert(kept[i] == all[j]);
            }
            law_lines_read_back(kept);
            if max_lines == 0 {
                assert(kept =~= Seq::empty());
                assert(newest(kept.push(clean), 0) =~= Seq::empty());
            } else {
                assert(kept[kept.len() - 1] == clean);
            }
        }
    }
}

} // verus!
