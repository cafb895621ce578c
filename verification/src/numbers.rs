//! Decimal text of integers, and parsing of small decimal numbers.

use vstd::prelude::*;

verus! {

/// Decimal digit of a value below 10.
pub open spec fn dec_digit(v: int) -> char
    recommends
        0 <= v < 10,
{
    if v == 0 {
        '0'
    } else if v == 1 {
        '1'
    } else if v == 2 {
        '2'
    } else if v == 3 {
        '3'
    } else if v == 4 {
        '4'
    } else if v == 5 {
        '5'
    } else if v == 6 {
        '6'
    } else if v == 7 {
        '7'
    } else if v == 8 {
        '8'
    } else {
        '9'
    }
}

/// Decimal text of a non-negative value, most significant digit first,
/// without leading zeros (except for the value zero itself).
pub open spec fn dec_nat(n: nat) -> Seq<char>
    decreases n,
{
    if n < 10 {
        seq![dec_digit(n as int)]
    } else {
        dec_nat(n / 10) + seq![dec_digit(n as int % 10)]
    }
}

/// Decimal text of a signed value: a minus sign for negatives, then digits.
pub open spec fn dec_int(m: int) -> Seq<char> {
    if m < 0 {
        seq!['-'] + dec_nat((-m) as nat)
    } else {
        dec_nat(m as nat)
    }
}

/// Decimal digit of a value below 10, as executable code.
fn dec_digit_char(d: u8) -> (r: char)
    requires
        d < 10,
    ensures
        r == dec_digit(d as int),
{
    match d {
        0 => '0',
        1 => '1',
        2 => '2',
        3 => '3',
        4 => '4',
        5 => '5',
        6 => '6',
        7 => '7',
        8 => '8',
        _ => '9',
    }
}

/// Appends the decimal digits of `u` to `out`.
fn push_dec_u64(out: &mut Vec<char>, u: u64)
    ensures
        final(out)@ == old(out)@ + dec_nat(u as nat),
    decreases u,
{
    if u < 10 {
        out.push(dec_digit_char(u as u8));
        proof {
            assert(out@ =~= old(out)@ + dec_nat(u as nat));
        }
    } else {
        push_dec_u64(out, u / 10);
        out.push(dec_digit_char((u % 10) as u8));
        proof {
            assert(out@ =~= old(out)@ + dec_nat(u as nat));
        }
    }
}

/// The decimal text of a signed value.
pub fn i64_to_string(m: i64) -> (r: String)
    ensures
        r@ == dec_int(m as int),
{
    let mut out: Vec<char> = Vec::new();
    if m < 0 {
        out.push('-');
        let u: u64 = ((-(m + 1)) as u64) + 1;
        proof {
            assert(u == -(m as int));
        }
        push_dec_u64(&mut out, u);
        proof {
            assert(out@ =~= dec_int(m as int));
        }
    } else {
        push_dec_u64(&mut out, m as u64);
        proof {
            assert(out@ =~= dec_int(m as int));
        }
    }
    crate::text::chars_to_string(&out)
}

/// Parses a decimal port number the way the standard integer parser does:
/// an optional leading plus sign, then one or more digits, rejecting empty
/// text, other characters, and values over 65535.
pub fn parse_u16(v: &Vec<char>) -> (r: Option<u16>)
    ensures
        r matches Some(x) ==> parses_as_u16(v@, x as int),
        r is None ==> forall|x: int| !parses_as_u16(v@, x),
{
    let n = v.len();
    let mut i: usize = 0;
    if n > 0 && v[0] == '+' {
        i = 1;
    }
    let ghost start = i as int;
    let ghost body = if v@.len() > 0 && v@[0] == '+' {
        v@.skip(1)
    } else {
        v@
    };
    proof {
        assert(body =~= v@.subrange(start, n as int));
    }
    if i == n {
        proof {
            assert(body.len() == 0);
        }
        return None;
    }
    let mut acc: u32 = 0;
    while i < n
        invariant
            n == v@.len(),
            start <= i <= n,
            start < n,
            0 <= start <= 1,
            body == (if v@.len() > 0 && v@[0] == '+' {
                v@.skip(1)
            } else {
                v@
            }),
            body == v@.subrange(start, n as int),
            acc <= 0xFFFF,
            acc == digits_value(v@.subrange(start, i as int)),
            all_digits(v@.subrange(start, i as int)),
        decreases n - i,
    {
        let c = v[i];
        let d: u32;
        if c == '0' {
            d = 0;
        } else if c == '1' {
            d = 1;
        } else if c == '2' {
            d = 2;
        } else if c == '3' {
            d = 3;
        } else if c == '4' {
            d = 4;
        } else if c == '5' {
            d = 5;
        } else if c == '6' {
            d = 6;
        } else if c == '7' {
            d = 7;
        } else if c == '8' {
            d = 8;
        } else if c == '9' {
            d = 9;
        } else {
            proof {
                assert(body[i - start] == c);
                assert(!all_digits(body));
            }
            return None;
        }
        proof {
            assert(is_digit_char(c) && char_digit(c) == d);
            assert(v@.subrange(start, i + 1) =~= v@.subrange(start, i as int).push(c));
            lemma_digits_value_snoc(v@.subrange(start, i as int), c);
        }
        if acc > 0xFFFF / 10 || 10 * acc + d > 0xFFFF {
            proof {
                assert(digits_value(v@.subrange(start, i + 1)) > 0xFFFF);
                assert forall|x: int| !parses_as_u16(v@, x) by {
                    if all_digits(body) {
                        assert(v@.subrange(start, i + 1) =~= body.subrange(0, i + 1 - start));
                        lemma_digits_value_monotone(v@.subrange(start, i + 1), body);
                    }
                }
            }
            return None;
        }
        acc = 10 * acc + d;
        i = i + 1;
    }
    proof {
        assert(body =~= v@.subrange(start, i as int));
        assert(parses_as_u16(v@, acc as int));
    }
    Some(acc as u16)
}

/// Whether `c` is a decimal digit character.
pub open spec fn is_digit_char(c: char) -> bool {
    c == '0' || c == '1' || c == '2' || c == '3' || c == '4' || c == '5' || c == '6' || c == '7'
        || c == '8' || c == '9'
}

/// Whether every character of `s` is a decimal digit.
pub open spec fn all_digits(s: Seq<char>) -> bool {
    forall|i: int| 0 <= i < s.len() ==> is_digit_char(s[i])
}

/// The numeric value of a digit character.
pub open spec fn char_digit(c: char) -> int
    recommends
        is_digit_char(c),
{
    if c == '0' {
        0
    } else if c == '1' {
        1
    } else if c == '2' {
        2
    } else if c == '3' {
        3
    } else if c == '4' {
        4
    } else if c == '5' {
        5
    } else if c == '6' {
        6
    } else if c == '7' {
        7
    } else if c == '8' {
        8
    } else {
        9
    }
}

/// The value of a digit string, most significant digit first.
pub open spec fn digits_value(s: Seq<char>) -> int
    decreases s.len(),
{
    if s.len() == 0 {
        0
    } else {
        10 * digits_value(s.drop_last()) + char_digit(s.last())
    }
}

/// Whether `v` is the decimal text of the 16-bit value `x`, with an optional
/// leading plus sign.
pub open spec fn parses_as_u16(v: Seq<char>, x: int) -> bool {
    let body = if v.len() > 0 && v[0] == '+' {
        v.skip(1)
    } else {
        v
    };
    &&& body.len() > 0
    &&& all_digits(body)
    &&& 0 <= x <= 0xFFFF
    &&& digits_value(body) == x
}

/// Appending a digit multiplies the value by ten and adds the digit.
proof fn lemma_digits_value_snoc(s: Seq<char>, c: char)
    ensures
        digits_value(s.push(c)) == 10 * digits_value(s) + char_digit(c),
        all_digits(s) && is_digit_char(c) ==> all_digits(s.push(c)),
{
    let t = s.push(c);
    assert(t.drop_last() =~= s);
    assert(t.last() == c);
    if all_digits(s) && is_digit_char(c) {
        assert forall|i: int| 0 <= i < t.len() implies is_digit_char(t[i]) by {
            if i < s.len() {
                assert(t[i] == s[i]);
            }
        }
    }
}

/// A digit string is worth at least as much as any of its prefixes.
proof fn lemma_digits_value_monotone(p: Seq<char>, s: Seq<char>)
    requires
        p.len() <= s.len(),
        p =~= s.subrange(0, p.len() as int),
        all_digits(s),
    ensures
        digits_value(s) >= digits_value(p),
        digits_value(s) >= 0,
    decreases s.len(),
{
    lemma_digits_value_nonneg(s);
    if p.len() == s.len() {
        assert(p =~= s);
    } else {
        let s2 = s.drop_last();
        lemma_digits_value_nonneg(s2);
        assert(all_digits(s2)) by {
            assert forall|i: int| 0 <= i < s2.len() implies is_digit_char(s2[i]) by {
                assert(s2[i] == s[i]);
            }
        }
        assert(p =~= s2.subrange(0, p.len() as int));
        lemma_digits_value_monotone(p, s2);
        assert(is_digit_char(s.last()));
        assert(0 <= char_digit(s.last()) < 10);
    }
}

/// A digit string has a non-negative value.
proof fn lemma_digits_value_nonneg(s: Seq<char>)
    requires
        all_digits(s),
    ensures
        digits_value(s) >= 0,
    decreases s.len(),
{
    if s.len() > 0 {
        let s2 = s.drop_last();
        assert(all_digits(s2)) by {
            assert forall|i: int| 0 <= i < s2.len() implies is_digit_char(s2[i]) by {
                assert(s2[i] == s[i]);
            }
        }
        lemma_digits_value_nonneg(s2);
        assert(is_digit_char(s.last()));
        assert(0 <= char_digit(s.last()) < 10);
    }
}

} // verus!
