//! Whole numbers as decimal text.
use vstd::prelude::*;
use crate::text::{chars_of, text_of};

verus! {

/// The character of a decimal digit.
pub open spec fn digit(d: int) -> char {
    (d + 48) as char
}

/// A natural number in decimal, without leading zeros.
pub open spec fn digits(n: nat) -> Seq<char>
    decreases n,
{
    if n < 10 {
        seq![digit(n as int)]
    } else {
        digits(n / 10).push(digit((n % 10) as int))
    }
}

/// A whole number in decimal.
pub open spec fn decimal(n: int) -> Seq<char> {
    if n < 0 {
        seq!['-'] + digits((-n) as nat)
    } else {
        digits(n as nat)
    }
}

/// The number that a row of decimal digits stands for; `None` for an empty row
/// and where another character stands in it.
pub open spec fn digits_value(s: Seq<char>) -> Option<nat>
    decreases s.len(),
{
    if s.len() == 0 || !('0' <= s.last() <= '9') {
        None
    } else if s.len() == 1 {
        Some((s[0] as u32 - 48) as nat)
    } else {
        match digits_value(s.drop_last()) {
            Some(v) => Some((10 * v + (s.last() as u32 - 48)) as nat),
            None => None,
        }
    }
}

/// The `i64` that a text stands for: digits, with at most one sign before them.
pub open spec fn parsed(s: Seq<char>) -> Option<int> {
    let value = if s.len() > 0 && s[0] == '-' {
        match digits_value(s.skip(1)) {
            Some(v) => Some(-(v as int)),
            None => None,
        }
    } else if s.len() > 0 && s[0] == '+' {
        match digits_value(s.skip(1)) {
            Some(v) => Some(v as int),
            None => None,
        }
    } else {
        match digits_value(s) {
            Some(v) => Some(v as int),
            None => None,
        }
    };
    match value {
        Some(v) => if i64::MIN <= v <= i64::MAX {
            Some(v)
        } else {
            None
        },
        None => None,
    }
}

/// The decimal text of a number reads back as that number.
pub proof fn lemma_digits_value(n: nat)
    ensures
        digits_value(digits(n)) == Some(n),
        digits(n).len() > 0,
        digits(n)[0] != '-',
        digits(n)[0] != '+',
    decreases n,
{
    if n >= 10 {
        lemma_digits_value(n / 10);
        assert(digits(n).drop_last() =~= digits(n / 10));
    }
}

/// Reading the decimal text of an `i64` gives that number back.
pub proof fn law_decimal_reads_back(n: i64)
    ensures
        parsed(decimal(n as int)) == Some(n as int),
{
    if n < 0 {
        lemma_digits_value((-n) as nat);
        assert(decimal(n as int).skip(1) =~= digits((-n) as nat));
    } else {
        lemma_digits_value(n as nat);
    }
}

/// A row of digits stands for at least what its beginning stands for.
proof fn lemma_value_grows(s: Seq<char>, k: int)
    requires
        0 < k <= s.len(),
        digits_value(s) is Some,
    ensures
        digits_value(s.take(k)) is Some,
        digits_value(s.take(k))->0 <= digits_value(s)->0,
    decreases s.len(),
{
    if k == s.len() {
        assert(s.take(k) =~= s);
    } else {
        lemma_value_grows(s.drop_last(), k);
        assert(s.drop_last().take(k) =~= s.take(k));
    }
}

/// The decimal text of a number.
pub fn show_i64(n: i64) -> (r: String)
    ensures
        r@ == decimal(n as int),
{
    let mut rest: u64 = if n < 0 {
        (-(n as i128)) as u64
    } else {
        n as u64
    };
    let ghost whole = rest as nat;
    let mut rev: Vec<char> = Vec::new();
    let ghost mut tail: Seq<char> = Seq::empty();
    while rest >= 10
        invariant
            digits(whole) == digits(rest as nat) + tail,
            rev@.len() == tail.len(),
            forall|i: int| 0 <= i < tail.len() ==> tail[i] == rev@[tail.len() - 1 - i],
        decreases rest,
    {
        let d: u8 = (rest % 10) as u8;
        let c: char = (d + 48) as char;
        proof {
            assert(digits(rest as nat) == digits((rest / 10) as nat).push(c));
            assert(digits(rest as nat) + tail =~= digits((rest / 10) as nat) + (seq![c] + tail));
            tail = seq![c] + tail;
        }
        rev.push(c);
        rest = rest / 10;
    }
    let d: u8 = rest as u8;
    let c: char = (d + 48) as char;
    let mut v: Vec<char> = Vec::new();
    if n < 0 {
        v.push('-');
    }
    v.push(c);
    let ghost head = v@;
    let mut i: usize = rev.len();
    while i > 0
        invariant
            i <= rev.len(),
            rev@.len() == tail.len(),
            forall|j: int| 0 <= j < tail.len() ==> tail[j] == rev@[tail.len() - 1 - j],
            v@ == head + tail.take(tail.len() - i),
        decreases i,
    {
        i = i - 1;
        v.push(rev[i]);
        assert(tail.take(tail.len() - i) =~= tail.take(tail.len() - i - 1).push(rev@[i as int]));
    }
    assert(tail.take(tail.len() as int) =~= tail);
    assert(v@ =~= decimal(n as int));
    text_of(&v)
}

/// The number that a text stands for.
pub fn parse_i64(s: &str) -> (r: Option<i64>)
    ensures
        match r {
            Some(v) => parsed(s@) == Some(v as int),
            None => parsed(s@) is None,
        },
{
    let v = chars_of(s);
    let negative = v.len() > 0 && v[0] == '-';
    let signed = negative || (v.len() > 0 && v[0] == '+');
    let from: usize = if signed {
        1
    } else {
        0
    };
    let ghost body = if signed {
        s@.skip(1)
    } else {
        s@
    };
    assert(v@.skip(from as int) =~= body);
    if v.len() == from {
        return None;
    }
    let mut value: u128 = 0;
    for i in from..v.len()
        invariant
            v@ == s@,
            from <= i <= v.len(),
            from <= 1,
            from < v.len(),
            body == v@.skip(from as int),
            signed ==> body == s@.skip(1),
            !signed ==> body == s@,
            signed == (negative || (v@.len() > 0 && v@[0] == '+')),
            negative == (v@.len() > 0 && v@[0] == '-'),
            signed == (from == 1),
            i == from ==> value == 0,
            i > from ==> digits_value(body.take(i - from)) == Some(value as nat),
            value <= 0x8000_0000_0000_0000,
    {
        let c = v[i];
        assert(body.take(i + 1 - from).last() == c);
        assert(body.take(i + 1 - from).drop_last() =~= body.take(i - from));
        if !('0' <= c && c <= '9') {
            proof {
                if digits_value(body) is Some {
                    lemma_value_grows(body, i + 1 - from);
                }
            }
            return None;
        }
        value = value * 10 + ((c as u32) - 48) as u128;
        if value > 0x8000_0000_0000_0000 {
            proof {
                if digits_value(body) is Some {
                    lemma_value_grows(body, i + 1 - from);
                }
            }
            return None;
        }
    }
    assert(body.take(v.len() - from) =~= body);
    if negative {
        Some((-(value as i128)) as i64)
    } else if value <= 0x7fff_ffff_ffff_ffff {
        Some(value as i64)
    } else {
        None
    }
}

} // verus!
