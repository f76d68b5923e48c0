//! Decimal integer parsing with the rules of `str::parse` for `i32` and
//! `usize`: an optional sign, then one or more ASCII digits, and a value
//! that fits the type; anything else (whitespace included) is an error.
use vstd::prelude::*;

verus! {

/// An ASCII decimal digit.
pub open spec fn is_digit(c: char) -> bool {
    '0' <= c && c <= '9'
}

/// Every character of `s` is an ASCII decimal digit.
pub open spec fn all_digits(s: Seq<char>) -> bool {
    forall|i: int| 0 <= i < s.len() ==> is_digit(#[trigger] s[i])
}

/// The value of a digit character.
pub open spec fn digit_value(c: char) -> nat {
    ((c as int) - ('0' as int)) as nat
}

/// The value of the decimal numeral `s` (leading zeros allowed).
pub open spec fn decimal_value(s: Seq<char>) -> nat
    decreases s.len(),
{
    if s.len() == 0 {
        0
    } else {
        decimal_value(s.drop_last()) * 10 + digit_value(s.last())
    }
}

/// What `str::parse::<i32>` gives for the characters `s`.
pub open spec fn spec_parse_i32(s: Seq<char>) -> Option<i32> {
    if s.len() == 0 {
        None
    } else if (s[0] == '+' || s[0] == '-') && s.len() == 1 {
        None
    } else if s[0] == '-' {
        let body = s.drop_first();
        if all_digits(body) && decimal_value(body) <= 0x8000_0000 {
            Some((-decimal_value(body)) as i32)
        } else {
            None
        }
    } else {
        let body = if s[0] == '+' { s.drop_first() } else { s };
        if all_digits(body) && decimal_value(body) <= i32::MAX {
            Some(decimal_value(body) as i32)
        } else {
            None
        }
    }
}

/// What `str::parse::<usize>` gives for the characters `s`.
pub open spec fn spec_parse_usize(s: Seq<char>) -> Option<usize> {
    if s.len() == 0 {
        None
    } else if (s[0] == '+' || s[0] == '-') && s.len() == 1 {
        None
    } else {
        let body = if s[0] == '+' { s.drop_first() } else { s };
        if all_digits(body) && decimal_value(body) <= usize::MAX {
            Some(decimal_value(body) as usize)
        } else {
            None
        }
    }
}

/// The value of the digits `v[lo..hi]` if they are all digits and the value
/// is at most `limit`; `None` otherwise.
fn parse_magnitude(v: &Vec<char>, lo: usize, hi: usize, limit: u64) -> (r: Option<u64>)
    requires
        lo <= hi <= v.len(),
    ensures
        r is Some <==> (all_digits(v@.subrange(lo as int, hi as int))
            && decimal_value(v@.subrange(lo as int, hi as int)) <= limit),
        r matches Some(x) ==> x == decimal_value(v@.subrange(lo as int, hi as int)),
{
    // `acc` is the value of the digits read so far, capped at `limit + 1`.
    let cap: u128 = limit as u128 + 1;
    let mut acc: u128 = 0;
    let mut j: usize = lo;
    while j < hi
        invariant
            lo <= j <= hi <= v.len(),
            cap == limit + 1,
            all_digits(v@.subrange(lo as int, j as int)),
            acc == if decimal_value(v@.subrange(lo as int, j as int)) < cap {
                decimal_value(v@.subrange(lo as int, j as int)) as int
            } else {
                cap as int
            },
        decreases hi - j,
    {
        let c = v[j];
        let ghost pre = v@.subrange(lo as int, j as int);
        let ghost next = v@.subrange(lo as int, j + 1);
        assert(next.drop_last() =~= pre);
        if !('0' <= c && c <= '9') {
            assert(!is_digit(next[j - lo]));
            assert(!all_digits(v@.subrange(lo as int, hi as int))) by {
                assert(v@.subrange(lo as int, hi as int)[j - lo] == c);
            }
            return None;
        }
        let d: u128 = (c as u32 - '0' as u32) as u128;
        assert(d == digit_value(c));
        let grown = acc * 10 + d;
        acc = if grown < cap { grown } else { cap };
        assert(all_digits(next)) by {
            assert forall|i: int| 0 <= i < next.len() implies is_digit(#[trigger] next[i]) by {
                if i < pre.len() {
                    assert(next[i] == pre[i]);
                }
            }
        }
        j = j + 1;
    }
    if acc < cap {
        Some(acc as u64)
    } else {
        None
    }
}

/// Parses `v[lo..hi]` as `str::parse::<i32>` does.
pub fn parse_i32_range(v: &Vec<char>, lo: usize, hi: usize) -> (r: Option<i32>)
    requires
        lo <= hi <= v.len(),
    ensures
        r == spec_parse_i32(v@.subrange(lo as int, hi as int)),
{
    let ghost s = v@.subrange(lo as int, hi as int);
    if lo == hi {
        return None;
    }
    let first = v[lo];
    assert(s[0] == first);
    if (first == '+' || first == '-') && hi - lo == 1 {
        return None;
    }
    if first == '-' {
        assert(v@.subrange(lo + 1, hi as int) =~= s.drop_first());
        match parse_magnitude(v, lo + 1, hi, 0x8000_0000) {
            Some(m) => Some((0 - (m as i64)) as i32),
            None => None,
        }
    } else {
        let body_lo = if first == '+' { lo + 1 } else { lo };
        assert(v@.subrange(body_lo as int, hi as int) =~= (if first == '+' { s.drop_first() } else { s }));
        match parse_magnitude(v, body_lo, hi, 0x7fff_ffff) {
            Some(m) => Some(m as i32),
            None => None,
        }
    }
}

/// Parses `v[lo..hi]` as `str::parse::<usize>` does.
pub fn parse_usize_range(v: &Vec<char>, lo: usize, hi: usize) -> (r: Option<usize>)
    requires
        lo <= hi <= v.len(),
    ensures
        r == spec_parse_usize(v@.subrange(lo as int, hi as int)),
{
    let ghost s = v@.subrange(lo as int, hi as int);
    if lo == hi {
        return None;
    }
    let first = v[lo];
    assert(s[0] == first);
    if (first == '+' || first == '-') && hi - lo == 1 {
        return None;
    }
    let body_lo = if first == '+' { lo + 1 } else { lo };
    assert(v@.subrange(body_lo as int, hi as int) =~= (if first == '+' { s.drop_first() } else { s }));
    match parse_magnitude(v, body_lo, hi, usize::MAX as u64) {
        Some(m) => Some(m as usize),
        None => None,
    }
}

/// Parses `s` as `str::parse::<i32>` does.
pub fn parse_i32(s: &str) -> (r: Option<i32>)
    ensures
        r == spec_parse_i32(s@),
{
    let v = crate::text::chars_of(s);
    assert(v@.subrange(0, v@.len() as int) =~= v@);
    parse_i32_range(&v, 0, v.len())
}

/// The digit character of `d` (for `d` below ten).
pub open spec fn digit_char(d: nat) -> char {
    (('0' as int) + d) as char
}

/// The decimal text of `n` as `Display` writes it: its digits, most
/// significant first, with no leading zero (`0` is written `0`).
pub open spec fn decimal_text(n: nat) -> Seq<char>
    decreases n,
{
    if n < 10 {
        seq![digit_char(n)]
    } else {
        decimal_text(n / 10).push(digit_char(n % 10))
    }
}

/// The text of an `i32` as `Display` writes it: a `-` before negative
/// values, then the decimal text of the magnitude.
pub open spec fn i32_text(v: i32) -> Seq<char> {
    if v < 0 {
        seq!['-'] + decimal_text((-(v as int)) as nat)
    } else {
        decimal_text(v as nat)
    }
}

/// The decimal text of `n` is all digits, starts with a digit, and reads
/// back as `n`.
pub proof fn lemma_decimal_text(n: nat)
    ensures
        all_digits(decimal_text(n)),
        decimal_text(n).len() > 0,
        decimal_value(decimal_text(n)) == n,
    decreases n,
{
    if n < 10 {
        let t = decimal_text(n);
        assert(digit_char(n) as int == '0' as int + n);
        assert(t.drop_last() =~= Seq::<char>::empty());
        assert(t.last() == digit_char(n));
        assert(digit_value(t.last()) == n);
        assert(decimal_value(t) == decimal_value(t.drop_last()) * 10 + n);
    } else {
        lemma_decimal_text(n / 10);
        let t = decimal_text(n);
        let head = decimal_text(n / 10);
        let d = (n % 10) as nat;
        assert(digit_char(d) as int == '0' as int + d);
        assert(t.drop_last() =~= head);
        assert(t.last() == digit_char(d));
        assert(all_digits(t)) by {
            assert forall|i: int| 0 <= i < t.len() implies is_digit(#[trigger] t[i]) by {
                if i < head.len() {
                    assert(t[i] == head[i]);
                }
            }
        }
        assert(digit_value(t.last()) == d);
        assert(decimal_value(t) == decimal_value(head) * 10 + d);
        assert((n / 10) * 10 + n % 10 == n);
    }
}

/// Reading the text of any `i32` gives it back.
pub proof fn lemma_parse_i32_text(v: i32)
    ensures
        spec_parse_i32(i32_text(v)) == Some(v),
{
    if v < 0 {
        let m = (-(v as int)) as nat;
        lemma_decimal_text(m);
        let t = i32_text(v);
        assert(t.drop_first() =~= decimal_text(m));
        assert(t[0] == '-');
        assert(m <= 0x8000_0000);
    } else {
        let m = v as nat;
        lemma_decimal_text(m);
        let t = i32_text(v);
        assert(is_digit(t[0]));
    }
}

} // verus!
