//! Signal envelope codec.
//!
//! An envelope is one JSON object with exactly the three fields `from_id`,
//! `payload` and `signal_type`, in that order, without extra whitespace:
//!
//! ```text
//! {"from_id":"<id>","payload":"<sdp-or-candidate>","signal_type":"Offer"}
//! ```
//!
//! String values escape `"`, `\` and control characters the way common JSON
//! writers do: `\"`, `\\`, `\b`, `\t`, `\n`, `\f`, `\r`, and `\u00XX` with
//! lowercase hex for the remaining controls.  The parser accepts exactly this
//! canonical form and is a two-sided inverse of the encoder.

use vstd::prelude::*;

use crate::message::{signal_type_token, SignalPayload, SignalType};
use crate::text::{chars_to_string, str_eq, str_to_chars};

verus! {

/// A character that stands for itself inside a JSON string.
pub open spec fn is_plain(c: char) -> bool {
    c != '"' && c != '\\' && (c as u32) >= 0x20
}

/// Lowercase hex digit of a value below 16.
pub open spec fn hex_digit(v: int) -> char
    recommends
        0 <= v < 16,
{
    if v == 0 {
        '0'
    } else if v == 1 {
        '1'
    } else if v == 2 {
        '2'
    } else if v == 3 {
        '3'
    } else if v == 4 {
        '4'
    } else if v == 5 {
        '5'
    } else if v == 6 {
        '6'
    } else if v == 7 {
        '7'
    } else if v == 8 {
        '8'
    } else if v == 9 {
        '9'
    } else if v == 10 {
        'a'
    } else if v == 11 {
        'b'
    } else if v == 12 {
        'c'
    } else if v == 13 {
        'd'
    } else if v == 14 {
        'e'
    } else {
        'f'
    }
}

/// The canonical escape of one character.
pub open spec fn esc_char(c: char) -> Seq<char> {
    if c == '"' {
        seq!['\\', '"']
    } else if c == '\\' {
        seq!['\\', '\\']
    } else if c == '\u{08}' {
        seq!['\\', 'b']
    } else if c == '\u{09}' {
        seq!['\\', 't']
    } else if c == '\u{0A}' {
        seq!['\\', 'n']
    } else if c == '\u{0C}' {
        seq!['\\', 'f']
    } else if c == '\u{0D}' {
        seq!['\\', 'r']
    } else if (c as u32) < 0x20 {
        seq!['\\', 'u', '0', '0', hex_digit((c as u32) as int / 16), hex_digit(
            (c as u32) as int % 16,
        )]
    } else {
        seq![c]
    }
}

/// The canonical escape of a string, character by character.
pub open spec fn esc(s: Seq<char>) -> Seq<char>
    decreases s.len(),
{
    if s.len() == 0 {
        Seq::empty()
    } else {
        esc_char(s[0]) + esc(s.skip(1))
    }
}

/// The canonical JSON text of an envelope.
pub open spec fn envelope_json(from_id: Seq<char>, payload: Seq<char>, ty: SignalType) -> Seq<
    char,
> {
    "{\"from_id\":\""@ + esc(from_id) + "\",\"payload\":\""@ + esc(payload)
        + "\",\"signal_type\":\""@ + signal_type_token(ty) + "\"}"@
}

/// Escaping distributes over appending one character at the end.
pub proof fn lemma_esc_snoc(s: Seq<char>, c: char)
    ensures
        esc(s.push(c)) =~= esc(s) + esc_char(c),
    decreases s.len(),
{
    if s.len() == 0 {
        let t = s.push(c);
        assert(t[0] == c);
        assert(t.skip(1) =~= Seq::<char>::empty());
        assert(esc(t) == esc_char(c) + esc(t.skip(1)));
    } else {
        lemma_esc_snoc(s.skip(1), c);
        assert(s.push(c).skip(1) =~= s.skip(1).push(c));
        assert(esc(s.push(c)) =~= esc_char(s[0]) + esc(s.skip(1).push(c)));
    }
}

/// A string of plain characters escapes to itself.
pub proof fn lemma_esc_plain(s: Seq<char>)
    requires
        forall|i: int| 0 <= i < s.len() ==> is_plain(s[i]),
    ensures
        esc(s) =~= s,
    decreases s.len(),
{
    if s.len() > 0 {
        lemma_esc_plain(s.skip(1));
        assert(esc_char(s[0]) =~= seq![s[0]]);
    }
}

/// Lowercase hex digit of a value below 16, as executable code.
fn hex_digit_char(d: u8) -> (r: char)
    requires
        d < 16,
    ensures
        r == hex_digit(d as int),
{
    match d {
        0 => '0',
        1 => '1',
        2 => '2',
        3 => '3',
        4 => '4',
        5 => '5',
        6 => '6',
        7 => '7',
        8 => '8',
        9 => '9',
        10 => 'a',
        11 => 'b',
        12 => 'c',
        13 => 'd',
        14 => 'e',
        _ => 'f',
    }
}

/// Appends the characters of `s` to `out`.
fn append_str(out: &mut Vec<char>, s: &str)
    ensures
        final(out)@ == old(out)@ + s@,
{
    let n = s.unicode_len();
    let mut i: usize = 0;
    while i < n
        invariant
            n == s@.len(),
            i <= n,
            out@ == old(out)@ + s@.take(i as int),
        decreases n - i,
    {
        out.push(s.get_char(i));
        i = i + 1;
        proof {
            assert(out@ =~= old(out)@ + s@.take(i as int));
        }
    }
    proof {
        assert(out@ =~= old(out)@ + s@);
    }
}

/// Appends the canonical escape of one character to `out`.
fn push_escaped_char(out: &mut Vec<char>, c: char)
    ensures
        final(out)@ == old(out)@ + esc_char(c),
{
    if c == '"' {
        out.push('\\');
        out.push('"');
    } else if c == '\\' {
        out.push('\\');
        out.push('\\');
    } else if c == '\u{08}' {
        out.push('\\');
        out.push('b');
    } else if c == '\u{09}' {
        out.push('\\');
        out.push('t');
    } else if c == '\u{0A}' {
        out.push('\\');
        out.push('n');
    } else if c == '\u{0C}' {
        out.push('\\');
        out.push('f');
    } else if c == '\u{0D}' {
        out.push('\\');
        out.push('r');
    } else {
        let u = c as u32;
        if u < 0x20 {
            out.push('\\');
            out.push('u');
            out.push('0');
            out.push('0');
            out.push(hex_digit_char((u / 16) as u8));
            out.push(hex_digit_char((u % 16) as u8));
        } else {
            out.push(c);
        }
    }
    proof {
        assert(out@ =~= old(out)@ + esc_char(c));
    }
}

/// Appends the canonical escape of `s` to `out`.
fn append_escaped(out: &mut Vec<char>, s: &str)
    ensures
        final(out)@ == old(out)@ + esc(s@),
{
    let n = s.unicode_len();
    let mut i: usize = 0;
    while i < n
        invariant
            n == s@.len(),
            i <= n,
            out@ == old(out)@ + esc(s@.take(i as int)),
        decreases n - i,
    {
        let c = s.get_char(i);
        push_escaped_char(out, c);
        proof {
            lemma_esc_snoc(s@.take(i as int), c);
            assert(s@.take(i as int).push(c) =~= s@.take(i + 1 as int));
        }
        i = i + 1;
    }
    proof {
        assert(s@.take(n as int) =~= s@);
    }
}

/// Splitting two equal concatenations at the same point yields equal parts.
proof fn lemma_add_cancel(p1: Seq<char>, s1: Seq<char>, p2: Seq<char>, s2: Seq<char>)
    requires
        p1 + s1 == p2 + s2,
        p1.len() == p2.len(),
    ensures
        p1 =~= p2,
        s1 =~= s2,
{
    let t = p1 + s1;
    assert(t.len() == p1.len() + s1.len());
    assert((p2 + s2).len() == p2.len() + s2.len());
    assert(s1.len() == s2.len());
    assert forall|i: int| 0 <= i < p1.len() implies p1[i] == p2[i] by {
        assert(t[i] == p1[i]);
        assert((p2 + s2)[i] == p2[i]);
    }
    assert forall|i: int| 0 <= i < s1.len() implies s1[i] == s2[i] by {
        assert(t[p1.len() + i] == s1[i]);
        assert((p2 + s2)[p2.len() + i] == s2[i]);
    }
}

/// Hex digits of distinct values differ.
proof fn lemma_hex_digit_injective(x: int, y: int)
    requires
        0 <= x < 16,
        0 <= y < 16,
        hex_digit(x) == hex_digit(y),
    ensures
        x == y,
{
}

/// The escape of one character announces that character: whatever follows,
/// equal concatenations starting with two character escapes cancel.
proof fn lemma_esc_char_cancel(a: char, b: char, u: Seq<char>, w: Seq<char>)
    requires
        esc_char(a) + u == esc_char(b) + w,
    ensures
        a == b,
        u =~= w,
{
    let t = esc_char(a) + u;
    assert(t[0] == esc_char(a)[0]);
    assert(t[0] == esc_char(b)[0]);
    if is_plain(a) && is_plain(b) {
        assert(a == b);
    } else if is_plain(a) != is_plain(b) {
        // One head is the plain character (never a backslash), the other '\'.
        assert(false);
    } else {
        // Both escaped: the second character picks the escape class.
        assert(t[1] == esc_char(a)[1]);
        assert(t[1] == esc_char(b)[1]);
        if esc_char(a)[1] == 'u' {
            let va = (a as u32) as int;
            let vb = (b as u32) as int;
            assert(t[4] == hex_digit(va / 16) && t[4] == hex_digit(vb / 16));
            assert(t[5] == hex_digit(va % 16) && t[5] == hex_digit(vb % 16));
            lemma_hex_digit_injective(va / 16, vb / 16);
            lemma_hex_digit_injective(va % 16, vb % 16);
            assert(va == vb);
            assert(a == b);
        } else {
            assert(a == b);
        }
    }
    lemma_add_cancel(esc_char(a), u, esc_char(b), w);
}

/// When an escaped string followed by a closing quote is read off the front
/// of an escaped prefix plus remainder, the prefix is an initial segment of
/// the string and the remainder continues its escape.
proof fn lemma_esc_quote_split(c: Seq<char>, rest: Seq<char>, out: Seq<char>, w: Seq<char>)
    requires
        esc(c) + seq!['"'] + rest == esc(out) + w,
    ensures
        out.len() <= c.len(),
        out =~= c.take(out.len() as int),
        w =~= esc(c.skip(out.len() as int)) + seq!['"'] + rest,
    decreases out.len(),
{
    if out.len() == 0 {
        assert(esc(out) + w =~= w);
        assert(c.skip(0) =~= c);
        assert(out =~= c.take(0));
        assert(w =~= esc(c) + seq!['"'] + rest);
    } else if c.len() == 0 {
        let t = esc(c) + seq!['"'] + rest;
        assert(esc(c).len() == 0);
        assert(t[0] == '"');
        assert(esc(out) == esc_char(out[0]) + esc(out.skip(1)));
        assert((esc(out) + w)[0] == esc_char(out[0])[0]);
        // A character escape never begins with a quote.
        assert(false);
    } else {
        assert(esc(c) == esc_char(c[0]) + esc(c.skip(1)));
        assert(esc(out) == esc_char(out[0]) + esc(out.skip(1)));
        assert(esc_char(c[0]) + (esc(c.skip(1)) + seq!['"'] + rest) =~= esc(c) + seq!['"']
            + rest);
        assert(esc_char(out[0]) + (esc(out.skip(1)) + w) =~= esc(out) + w);
        lemma_esc_char_cancel(
            c[0],
            out[0],
            esc(c.skip(1)) + seq!['"'] + rest,
            esc(out.skip(1)) + w,
        );
        lemma_esc_quote_split(c.skip(1), rest, out.skip(1), w);
        let k = out.len() as int;
        assert(c.skip(1).skip(k - 1) =~= c.skip(k));
        assert(out =~= c.take(k)) by {
            assert(out[0] == c[0]);
            assert forall|i: int| 1 <= i < k implies out[i] == c[i] by {
                assert(out.skip(1)[i - 1] == c.skip(1).take(k - 1)[i - 1]);
            }
        }
        assert(w =~= esc(c.skip(k)) + seq!['"'] + rest);
    }
}

/// Two readings of an escaped string up to its closing quote agree.
proof fn lemma_esc_quote_unique(c1: Seq<char>, r1: Seq<char>, c2: Seq<char>, r2: Seq<char>)
    requires
        esc(c1) + seq!['"'] + r1 == esc(c2) + seq!['"'] + r2,
    ensures
        c1 =~= c2,
        r1 =~= r2,
{
    assert(esc(c2) + (seq!['"'] + r2) =~= esc(c2) + seq!['"'] + r2);
    lemma_esc_quote_split(c1, r1, c2, seq!['"'] + r2);
    let k = c2.len() as int;
    if k < c1.len() {
        let c = c1.skip(k);
        assert(esc(c) == esc_char(c[0]) + esc(c.skip(1)));
        assert((seq!['"'] + r2)[0] == (esc(c) + seq!['"'] + r1)[0]);
        assert((esc(c) + seq!['"'] + r1)[0] == esc_char(c[0])[0]);
        assert(false);
    }
    assert(c1 =~= c2);
    assert(esc(c1.skip(k)) =~= Seq::<char>::empty());
    assert(seq!['"'] + r2 =~= seq!['"'] + r1);
    assert forall|i: int| 0 <= i < r1.len() implies r1[i] == r2[i] by {
        assert((seq!['"'] + r1)[i + 1] == r1[i]);
        assert((seq!['"'] + r2)[i + 1] == r2[i]);
    }
    assert(r1 =~= r2);
}

/// Value of a lowercase hex digit.
fn hex_val(c: char) -> (r: Option<u8>)
    ensures
        r matches Some(d) ==> d < 16 && hex_digit(d as int) == c,
        r is None ==> forall|d: int| 0 <= d < 16 ==> hex_digit(d) != c,
{
    match c {
        '0' => Some(0),
        '1' => Some(1),
        '2' => Some(2),
        '3' => Some(3),
        '4' => Some(4),
        '5' => Some(5),
        '6' => Some(6),
        '7' => Some(7),
        '8' => Some(8),
        '9' => Some(9),
        'a' => Some(10),
        'b' => Some(11),
        'c' => Some(12),
        'd' => Some(13),
        'e' => Some(14),
        'f' => Some(15),
        _ => None,
    }
}

/// Whether the characters of `lit` stand at position `at` of `v`.
fn expect_lit(v: &Vec<char>, at: usize, lit: &str) -> (r: bool)
    requires
        at <= v@.len(),
    ensures
        r == (at + lit@.len() <= v@.len() && v@.subrange(
            at as int,
            at + lit@.len(),
        ) == lit@),
{
    let k = lit.unicode_len();
    let n = v.len();
    if n - at < k {
        return false;
    }
    let mut j: usize = 0;
    while j < k
        invariant
            k == lit@.len(),
            n == v@.len(),
            at + k <= n,
            j <= k,
            forall|t: int| 0 <= t < j ==> v@[at + t] == lit@[t],
        decreases k - j,
    {
        if v[at + j] != lit.get_char(j) {
            proof {
                assert(v@.subrange(at as int, at + lit@.len())[j as int] != lit@[j as int]);
            }
            return false;
        }
        j = j + 1;
    }
    proof {
        assert(v@.subrange(at as int, at + lit@.len()) =~= lit@);
    }
    true
}

/// Reads an escaped string from position `start` up to and including its
/// closing quote.  Returns the unescaped content and the position after the
/// quote; fails exactly when no canonically escaped string ends there.
fn scan_string(v: &Vec<char>, start: usize) -> (r: Option<(Vec<char>, usize)>)
    requires
        start <= v@.len(),
    ensures
        r matches Some(p) ==> start <= p.1 <= v@.len() && v@.subrange(
            start as int,
            p.1 as int,
        ) == esc(p.0@) + seq!['"'],
        r is None ==> forall|c: Seq<char>, e: int|
            start <= e <= v@.len() ==> v@.subrange(start as int, e) != esc(c) + seq!['"'],
{
    let n = v.len();
    let mut out: Vec<char> = Vec::new();
    let mut i: usize = start;
    while i < n
        invariant
            n == v@.len(),
            start <= i <= n,
            esc(out@) =~= v@.subrange(start as int, i as int),
        decreases n - i,
    {
        let c0 = v[i];
        if c0 == '"' {
            proof {
                assert(v@.subrange(start as int, i + 1 as int) =~= esc(out@) + seq!['"']);
            }
            return Some((out, i + 1));
        } else if c0 == '\\' {
            if n - i < 2 {
                proof {
                    lemma_scan_stuck(v@, start as int, i as int, out@);
                }
                return None;
            }
            let d = v[i + 1];
            let e: char;
            if d == '"' {
                e = '"';
            } else if d == '\\' {
                e = '\\';
            } else if d == 'b' {
                e = '\u{08}';
            } else if d == 't' {
                e = '\u{09}';
            } else if d == 'n' {
                e = '\u{0A}';
            } else if d == 'f' {
                e = '\u{0C}';
            } else if d == 'r' {
                e = '\u{0D}';
            } else if d == 'u' {
                if n - i < 6 {
                    proof {
                        lemma_scan_stuck(v@, start as int, i as int, out@);
                    }
                    return None;
                }
                if v[i + 2] != '0' || v[i + 3] != '0' {
                    proof {
                        lemma_scan_stuck(v@, start as int, i as int, out@);
                    }
                    return None;
                }
                let h1 = hex_val(v[i + 4]);
                let h2 = hex_val(v[i + 5]);
                if let (Some(d1), Some(d2)) = (h1, h2) {
                    let va: u8 = 16 * d1 + d2;
                    if va >= 0x20 || va == 0x08 || va == 0x09 || va == 0x0A || va == 0x0C || va
                        == 0x0D {
                        proof {
                            assert forall|x1: int, x2: int|
                                (0 <= x1 < 16 && 0 <= x2 < 16 && hex_digit(x1) == v@[i + 4]
                                    && hex_digit(x2) == v@[i + 5]) implies bad_escape_value(
                                16 * x1 + x2,
                            ) by {
                                lemma_hex_digit_injective(x1, d1 as int);
                                lemma_hex_digit_injective(x2, d2 as int);
                            }
                            assert(stuck_at(v@, i as int));
                            lemma_scan_stuck(v@, start as int, i as int, out@);
                        }
                        return None;
                    }
                    let ch = va as char;
                    proof {
                        assert((ch as u32) == va);
                        assert(va as int / 16 == d1 as int && va as int % 16 == d2 as int);
                        assert(esc_char(ch) =~= v@.subrange(i as int, i + 6 as int));
                        lemma_esc_snoc(out@, ch);
                        assert(esc(out@.push(ch)) =~= v@.subrange(start as int, i + 6 as int));
                    }
                    out.push(ch);
                    i = i + 6;
                    continue ;
                } else {
                    proof {
                        assert forall|x1: int, x2: int|
                            (0 <= x1 < 16 && 0 <= x2 < 16 && hex_digit(x1) == v@[i + 4]
                                && hex_digit(x2) == v@[i + 5]) implies bad_escape_value(
                            16 * x1 + x2,
                        ) by {
                            assert(h1 is None || h2 is None);
                        }
                        assert(stuck_at(v@, i as int));
                        lemma_scan_stuck(v@, start as int, i as int, out@);
                    }
                    return None;
                }
            } else {
                proof {
                    lemma_scan_stuck(v@, start as int, i as int, out@);
                }
                return None;
            }
            proof {
                assert(esc_char(e) =~= v@.subrange(i as int, i + 2 as int));
                lemma_esc_snoc(out@, e);
                assert(esc(out@.push(e)) =~= v@.subrange(start as int, i + 2 as int));
            }
            out.push(e);
            i = i + 2;
        } else {
            let u = c0 as u32;
            if u < 0x20 {
                proof {
                    lemma_scan_stuck(v@, start as int, i as int, out@);
                }
                return None;
            }
            proof {
                assert(is_plain(c0));
                assert(esc_char(c0) =~= v@.subrange(i as int, i + 1 as int));
                lemma_esc_snoc(out@, c0);
                assert(esc(out@.push(c0)) =~= v@.subrange(start as int, i + 1 as int));
            }
            out.push(c0);
            i = i + 1;
        }
    }
    proof {
        lemma_scan_stuck(v@, start as int, i as int, out@);
    }
    None
}

/// When the scanner has consumed `esc(out)` up to position `i` and cannot
/// take another step, no canonically escaped string ends anywhere: the next
/// characters fit no character escape and are not a closing quote.
proof fn lemma_scan_stuck(v: Seq<char>, start: int, i: int, out: Seq<char>)
    requires
        0 <= start <= i <= v.len(),
        esc(out) == v.subrange(start, i),
        i < v.len() ==> v[i] != '"',
        i < v.len() ==> stuck_at(v, i),
    ensures
        forall|c: Seq<char>, e: int|
            start <= e <= v.len() ==> v.subrange(start, e) != esc(c) + seq!['"'],
{
    let n = v.len() as int;
    assert forall|c: Seq<char>, e: int|
        start <= e <= n implies v.subrange(start, e) != esc(c) + seq!['"'] by {
        if v.subrange(start, e) == esc(c) + seq!['"'] {
            let restv = v.subrange(e, n);
            assert(v.subrange(start, n) =~= v.subrange(start, e) + restv);
            let w = v.subrange(i, n);
            assert(v.subrange(start, n) =~= esc(out) + w);
            assert(esc(c) + seq!['"'] + restv =~= v.subrange(start, n));
            lemma_esc_quote_split(c, restv, out, w);
            let k = out.len() as int;
            let c2 = c.skip(k);
            if c2.len() == 0 {
                assert(w[0] == '"');
                assert(v[i] == '"');
                assert(false);
            } else {
                assert(esc(c2) == esc_char(c2[0]) + esc(c2.skip(1)));
                assert(esc_char(c2[0]) + (esc(c2.skip(1)) + seq!['"'] + restv) =~= esc(c2)
                    + seq!['"'] + restv);
                lemma_head_not_stuck(v, i, c2[0]);
                assert(false);
            }
        }
    }
}

/// A value that no canonical `\u00XX` escape carries: it is not a control
/// character, or it has a shorthand escape of its own.
pub open spec fn bad_escape_value(va: int) -> bool {
    va >= 0x20 || va == 0x08 || va == 0x09 || va == 0x0A || va == 0x0C || va == 0x0D
}

/// The conditions under which the scanner cannot consume a character escape
/// at position `i`.
pub open spec fn stuck_at(v: Seq<char>, i: int) -> bool {
    let n = v.len() as int;
    if v[i] == '\\' {
        if i + 1 >= n {
            true
        } else {
            let d = v[i + 1];
            if d == '"' || d == '\\' || d == 'b' || d == 't' || d == 'n' || d == 'f' || d == 'r' {
                false
            } else if d == 'u' {
                if i + 6 > n {
                    true
                } else if v[i + 2] != '0' || v[i + 3] != '0' {
                    true
                } else {
                    let a = v[i + 4];
                    let b = v[i + 5];
                    forall|d1: int, d2: int|
                        (0 <= d1 < 16 && 0 <= d2 < 16 && hex_digit(d1) == a && hex_digit(d2)
                            == b) ==> bad_escape_value(16 * d1 + d2)
                }
            } else {
                true
            }
        }
    } else {
        (v[i] as u32) < 0x20
    }
}

/// If the text at `i` begins with the escape of some character, there is a
/// character there, it is no closing quote, and the scanner is not stuck.
proof fn lemma_head_not_stuck(v: Seq<char>, i: int, x: char)
    requires
        0 <= i <= v.len(),
        exists|tail: Seq<char>| v.subrange(i, v.len() as int) == esc_char(x) + tail,
    ensures
        i < v.len(),
        v[i] != '"',
        !stuck_at(v, i),
{
    let n = v.len() as int;
    let w = v.subrange(i, n);
    let tail = choose|tail: Seq<char>| w == esc_char(x) + tail;
    assert(esc_char(x).len() >= 1);
    assert(w.len() >= 1);
    assert(i < n);
    assert(v[i] == w[0]);
    assert(w[0] == esc_char(x)[0]);
    if is_plain(x) {
        assert(v[i] == x);
        assert((v[i] as u32) >= 0x20);
        assert(v[i] != '\\');
        assert(v[i] != '"');
        assert(!stuck_at(v, i));
    } else {
        assert(v[i] == '\\');
        assert(esc_char(x).len() >= 2);
        assert(v[i + 1] == w[1] && w[1] == esc_char(x)[1]);
        let d = v[i + 1];
        if esc_char(x)[1] == 'u' {
            let vx = (x as u32) as int;
            assert(esc_char(x).len() == 6);
            assert(w.len() >= 6);
            assert(i + 6 <= n);
            assert(w[2] == esc_char(x)[2] && w[3] == esc_char(x)[3]);
            assert(w[4] == esc_char(x)[4] && w[5] == esc_char(x)[5]);
            assert(v[i + 2] == w[2] && v[i + 3] == w[3]);
            assert(v[i + 4] == w[4] && v[i + 5] == w[5]);
            assert(v[i + 4] == hex_digit(vx / 16) && v[i + 5] == hex_digit(vx % 16));
            assert(0 <= vx / 16 < 16 && 0 <= vx % 16 < 16);
            assert(vx < 0x20);
            assert(vx != 0x08 && vx != 0x09 && vx != 0x0A && vx != 0x0C && vx != 0x0D);
            assert(!bad_escape_value(16 * (vx / 16) + vx % 16));
            assert(!stuck_at(v, i));
        } else {
            assert(!stuck_at(v, i));
        }
    }
}

/// A signal type token consists of plain characters and escapes to itself.
proof fn lemma_token_plain(ty: SignalType)
    ensures
        esc(signal_type_token(ty)) =~= signal_type_token(ty),
        signal_type_token(ty).len() >= 5,
{
    reveal_strlit("Offer");
    reveal_strlit("Answer");
    reveal_strlit("Candidate");
    let s = signal_type_token(ty);
    assert forall|i: int| 0 <= i < s.len() implies is_plain(s[i]) by {
        if i == 0 {
        } else if i == 1 {
        } else if i == 2 {
        } else if i == 3 {
        } else if i == 4 {
        } else if i == 5 {
        } else if i == 6 {
        } else if i == 7 {
        } else {
            assert(i == 8);
        }
    }
    lemma_esc_plain(s);
}

/// A subrange splits at any interior point.
proof fn lemma_subrange_chain(v: Seq<char>, a: int, b: int, c: int)
    requires
        0 <= a <= b <= c <= v.len(),
    ensures
        v.subrange(a, c) =~= v.subrange(a, b) + v.subrange(b, c),
{
}

/// The canonical envelope text, decomposed the way the parser reads it: a
/// fixed head, then each field as an escaped string closed by a quote,
/// interleaved with fixed separators.
proof fn lemma_envelope_parts(f: Seq<char>, pl: Seq<char>, ty: SignalType, t: Seq<char>)
    requires
        t == envelope_json(f, pl, ty),
    ensures
        t.len() == 44 + esc(f).len() + esc(pl).len() + signal_type_token(ty).len(),
        t.subrange(0, 12) =~= "{\"from_id\":\""@,
        t.subrange(12, t.len() as int) =~= esc(f) + seq!['"'] + (",\"payload\":\""@ + (esc(pl)
            + seq!['"'] + (",\"signal_type\":\""@ + (esc(signal_type_token(ty)) + seq!['"']
            + "}"@)))),
{
    reveal_strlit("{\"from_id\":\"");
    reveal_strlit("\",\"payload\":\"");
    reveal_strlit(",\"payload\":\"");
    reveal_strlit("\",\"signal_type\":\"");
    reveal_strlit(",\"signal_type\":\"");
    reveal_strlit("\"}");
    reveal_strlit("}");
    reveal_strlit("Offer");
    reveal_strlit("Answer");
    reveal_strlit("Candidate");
    lemma_token_plain(ty);
    assert("\",\"payload\":\""@ =~= seq!['"'] + ",\"payload\":\""@);
    assert("\",\"signal_type\":\""@ =~= seq!['"'] + ",\"signal_type\":\""@);
    assert("\"}"@ =~= seq!['"'] + "}"@);
    assert(t.subrange(0, 12) =~= "{\"from_id\":\""@);
    assert(t.subrange(12, t.len() as int) =~= esc(f) + seq!['"'] + (",\"payload\":\""@ + (esc(
        pl,
    ) + seq!['"'] + (",\"signal_type\":\""@ + (esc(signal_type_token(ty)) + seq!['"']
        + "}"@)))));
}

/// Reassembles the parsed pieces: text that begins with the fixed head and
/// continues with the three escaped fields and separators is the canonical
/// envelope of those fields.
#[verifier::rlimit(100)]
proof fn lemma_assemble_envelope(
    v: Seq<char>,
    e1: int,
    e2: int,
    e3: int,
    fv: Seq<char>,
    plv: Seq<char>,
    ty: SignalType,
)
    requires
        12 <= e1,
        e1 + 12 <= e2,
        e2 + 16 <= e3 <= v.len(),
        e3 + 1 == v.len(),
        v.subrange(0, 12) == "{\"from_id\":\""@,
        v.subrange(12, e1) == esc(fv) + seq!['"'],
        v.subrange(e1, e1 + 12) == ",\"payload\":\""@,
        v.subrange(e1 + 12, e2) == esc(plv) + seq!['"'],
        v.subrange(e2, e2 + 16) == ",\"signal_type\":\""@,
        v.subrange(e2 + 16, e3) == esc(signal_type_token(ty)) + seq!['"'],
        v.subrange(e3, e3 + 1) == "}"@,
    ensures
        v == envelope_json(fv, plv, ty),
{
    let env = envelope_json(fv, plv, ty);
    lemma_envelope_parts(fv, plv, ty, env);
    let n = v.len() as int;
    let tok = signal_type_token(ty);
    lemma_subrange_chain(v, e2 + 16, e3, n);
    assert(v.subrange(e2 + 16, n) == (esc(tok) + seq!['"']) + "}"@);
    lemma_subrange_chain(v, e2, e2 + 16, n);
    assert(v.subrange(e2, n) == ",\"signal_type\":\""@ + ((esc(tok) + seq!['"']) + "}"@));
    lemma_subrange_chain(v, e1 + 12, e2, n);
    assert(v.subrange(e1 + 12, n) == (esc(plv) + seq!['"']) + (",\"signal_type\":\""@ + ((esc(
        tok,
    ) + seq!['"']) + "}"@)));
    lemma_subrange_chain(v, e1, e1 + 12, n);
    assert(v.subrange(e1, n) == ",\"payload\":\""@ + ((esc(plv) + seq!['"'])
        + (",\"signal_type\":\""@ + ((esc(tok) + seq!['"']) + "}"@))));
    lemma_subrange_chain(v, 12, e1, n);
    assert(v.subrange(12, n) == (esc(fv) + seq!['"']) + (",\"payload\":\""@ + ((esc(plv)
        + seq!['"']) + (",\"signal_type\":\""@ + ((esc(tok) + seq!['"']) + "}"@)))));
    assert(esc(fv) + seq!['"'] + (",\"payload\":\""@ + (esc(plv) + seq!['"']
        + (",\"signal_type\":\""@ + (esc(tok) + seq!['"'] + "}"@)))) =~= (esc(fv) + seq!['"'])
        + (",\"payload\":\""@ + ((esc(plv) + seq!['"']) + (",\"signal_type\":\""@ + ((esc(tok)
        + seq!['"']) + "}"@)))));
    assert(v.subrange(12, n) == env.subrange(12, env.len() as int));
    lemma_subrange_chain(v, 0, 12, n);
    lemma_subrange_chain(env, 0, 12, env.len() as int);
    assert(env.len() == n);
    assert(v.subrange(0, n) =~= v);
    assert(env.subrange(0, env.len() as int) =~= env);
    assert(v == env);
}

/// Two envelopes with the same canonical text carry the same fields.
pub proof fn lemma_envelope_json_injective(
    f1: Seq<char>,
    pl1: Seq<char>,
    ty1: SignalType,
    f2: Seq<char>,
    pl2: Seq<char>,
    ty2: SignalType,
)
    requires
        envelope_json(f1, pl1, ty1) == envelope_json(f2, pl2, ty2),
    ensures
        f1 == f2,
        pl1 == pl2,
        ty1 == ty2,
{
    reveal_strlit(",\"payload\":\"");
    reveal_strlit(",\"signal_type\":\"");
    reveal_strlit("}");
    reveal_strlit("Offer");
    reveal_strlit("Answer");
    reveal_strlit("Candidate");
    let t = envelope_json(f1, pl1, ty1);
    lemma_envelope_parts(f1, pl1, ty1, t);
    lemma_envelope_parts(f2, pl2, ty2, t);
    let n = t.len() as int;
    let rest1 = ",\"payload\":\""@ + (esc(pl1) + seq!['"'] + (",\"signal_type\":\""@ + (esc(
        signal_type_token(ty1),
    ) + seq!['"'] + "}"@)));
    let rest2 = ",\"payload\":\""@ + (esc(pl2) + seq!['"'] + (",\"signal_type\":\""@ + (esc(
        signal_type_token(ty2),
    ) + seq!['"'] + "}"@)));
    assert(esc(f1) + seq!['"'] + rest1 == esc(f2) + seq!['"'] + rest2);
    lemma_esc_quote_unique(f1, rest1, f2, rest2);
    assert(f1 =~= f2);
    let mid1 = esc(pl1) + seq!['"'] + (",\"signal_type\":\""@ + (esc(signal_type_token(ty1))
        + seq!['"'] + "}"@));
    let mid2 = esc(pl2) + seq!['"'] + (",\"signal_type\":\""@ + (esc(signal_type_token(ty2))
        + seq!['"'] + "}"@));
    lemma_add_cancel(",\"payload\":\""@, mid1, ",\"payload\":\""@, mid2);
    assert(esc(pl1) + seq!['"'] + (",\"signal_type\":\""@ + (esc(signal_type_token(ty1))
        + seq!['"'] + "}"@)) == esc(pl2) + seq!['"'] + (",\"signal_type\":\""@ + (esc(
        signal_type_token(ty2),
    ) + seq!['"'] + "}"@)));
    lemma_esc_quote_unique(
        pl1,
        ",\"signal_type\":\""@ + (esc(signal_type_token(ty1)) + seq!['"'] + "}"@),
        pl2,
        ",\"signal_type\":\""@ + (esc(signal_type_token(ty2)) + seq!['"'] + "}"@),
    );
    assert(pl1 =~= pl2);
    let tok1 = esc(signal_type_token(ty1)) + seq!['"'] + "}"@;
    let tok2 = esc(signal_type_token(ty2)) + seq!['"'] + "}"@;
    lemma_add_cancel(",\"signal_type\":\""@, tok1, ",\"signal_type\":\""@, tok2);
    lemma_esc_quote_unique(signal_type_token(ty1), "}"@, signal_type_token(ty2), "}"@);
    lemma_token_plain(ty1);
    lemma_token_plain(ty2);
    assert(signal_type_token(ty1) == signal_type_token(ty2));
    if ty1 != ty2 {
        assert(signal_type_token(ty1).len() != signal_type_token(ty2).len());
        assert(false);
    }
}

/// When the rest of the text is a literal followed by a remainder, the
/// literal stands right there and the remainder follows it.
proof fn lemma_prefix_lit(v: Seq<char>, a: int, lit: Seq<char>, rest: Seq<char>)
    requires
        0 <= a <= v.len(),
        v.subrange(a, v.len() as int) == lit + rest,
    ensures
        a + lit.len() <= v.len(),
        v.subrange(a, a + lit.len()) =~= lit,
        v.subrange(a + lit.len(), v.len() as int) =~= rest,
{
    let n = v.len() as int;
    let b = a + lit.len() as int;
    lemma_subrange_chain(v, a, b, n);
    lemma_add_cancel(v.subrange(a, b), v.subrange(b, n), lit, rest);
}

/// When the rest of the text is an escaped field, its quote and a remainder,
/// the field's escape and quote stand right there.
proof fn lemma_prefix_field(v: Seq<char>, a: int, f: Seq<char>, rest: Seq<char>)
    requires
        0 <= a <= v.len(),
        v.subrange(a, v.len() as int) == esc(f) + seq!['"'] + rest,
    ensures
        a + esc(f).len() + 1 <= v.len(),
        v.subrange(a, a + esc(f).len() + 1) =~= esc(f) + seq!['"'],
{
    let n = v.len() as int;
    let b = a + esc(f).len() + 1;
    assert(esc(f) + seq!['"'] + rest =~= (esc(f) + seq!['"']) + rest);
    assert(v.subrange(a, n).len() == n - a);
    assert(n - a == esc(f).len() + 1 + rest.len());
    lemma_subrange_chain(v, a, b, n);
    lemma_add_cancel(v.subrange(a, b), v.subrange(b, n), esc(f) + seq!['"'], rest);
}

/// When the scanner has read an escaped field where the text holds the
/// escape of `f`, a quote and a remainder, the scanner read exactly `f` and
/// stopped exactly before the remainder.
proof fn lemma_field_align(
    v: Seq<char>,
    a: int,
    e: int,
    fv: Seq<char>,
    f: Seq<char>,
    rest: Seq<char>,
)
    requires
        0 <= a <= e <= v.len(),
        v.subrange(a, e) == esc(fv) + seq!['"'],
        v.subrange(a, v.len() as int) == esc(f) + seq!['"'] + rest,
    ensures
        fv =~= f,
        e == a + esc(f).len() + 1,
        v.subrange(e, v.len() as int) =~= rest,
{
    let n = v.len() as int;
    lemma_subrange_chain(v, a, e, n);
    assert(esc(fv) + seq!['"'] + v.subrange(e, n) =~= (esc(fv) + seq!['"']) + v.subrange(e, n));
    lemma_esc_quote_unique(f, rest, fv, v.subrange(e, n));
}

/// Encodes an envelope as its canonical JSON text.
pub fn encode_signal_payload(msg: &SignalPayload) -> (r: String)
    ensures
        r@ == envelope_json(msg.from_id@, msg.payload@, msg.signal_type),
{
    let mut out: Vec<char> = Vec::new();
    append_str(&mut out, "{\"from_id\":\"");
    append_escaped(&mut out, msg.from_id.as_str());
    append_str(&mut out, "\",\"payload\":\"");
    append_escaped(&mut out, msg.payload.as_str());
    append_str(&mut out, "\",\"signal_type\":\"");
    append_str(&mut out, msg.signal_type.as_str());
    append_str(&mut out, "\"}");
    proof {
        assert(out@ =~= envelope_json(msg.from_id@, msg.payload@, msg.signal_type));
    }
    chars_to_string(&out)
}

/// Parses the canonical JSON text of an envelope.  Returns the envelope
/// exactly when the text is the canonical encoding of one, and `None` for
/// every other text.
pub fn parse_signal_payload(s: &str) -> (r: Option<SignalPayload>)
    ensures
        r matches Some(p) ==> s@ == envelope_json(p.from_id@, p.payload@, p.signal_type),
        r is None ==> forall|f: Seq<char>, pl: Seq<char>, ty: SignalType|
            s@ != envelope_json(f, pl, ty),
{
    let v = str_to_chars(s);
    let n = v.len();
    let ghost vs = v@;
    proof {
        reveal_strlit("{\"from_id\":\"");
        reveal_strlit(",\"payload\":\"");
        reveal_strlit(",\"signal_type\":\"");
        reveal_strlit("}");
    }

    if !expect_lit(&v, 0, "{\"from_id\":\"") {
        proof {
            assert forall|f: Seq<char>, pl: Seq<char>, ty: SignalType|
                vs != envelope_json(f, pl, ty) by {
                if vs == envelope_json(f, pl, ty) {
                    lemma_envelope_parts(f, pl, ty, vs);
                }
            }
        }
        return None;
    }
    let sc1 = scan_string(&v, 12);
    if sc1.is_none() {
        proof {
            assert forall|f: Seq<char>, pl: Seq<char>, ty: SignalType|
                vs != envelope_json(f, pl, ty) by {
                if vs == envelope_json(f, pl, ty) {
                    lemma_envelope_parts(f, pl, ty, vs);
                    lemma_prefix_field(
                        vs,
                        12,
                        f,
                        ",\"payload\":\""@ + (esc(pl) + seq!['"'] + (",\"signal_type\":\""@ + (
                        esc(signal_type_token(ty)) + seq!['"'] + "}"@))),
                    );
                }
            }
        }
        return None;
    }
    let (fv, e1) = sc1.unwrap();
    let ghost rest1 = |f: Seq<char>, pl: Seq<char>, ty: SignalType|
        ",\"payload\":\""@ + (esc(pl) + seq!['"'] + (",\"signal_type\":\""@ + (esc(
            signal_type_token(ty),
        ) + seq!['"'] + "}"@)));

    if !expect_lit(&v, e1, ",\"payload\":\"") {
        proof {
            assert forall|f: Seq<char>, pl: Seq<char>, ty: SignalType|
                vs != envelope_json(f, pl, ty) by {
                if vs == envelope_json(f, pl, ty) {
                    lemma_envelope_parts(f, pl, ty, vs);
                    lemma_field_align(vs, 12, e1 as int, fv@, f, rest1(f, pl, ty));
                    lemma_prefix_lit(vs, e1 as int, ",\"payload\":\""@, esc(pl) + seq!['"'] + (
                    ",\"signal_type\":\""@ + (esc(signal_type_token(ty)) + seq!['"'] + "}"@)));
                }
            }
        }
        return None;
    }
    let sc2 = scan_string(&v, e1 + 12);
    if sc2.is_none() {
        proof {
            assert forall|f: Seq<char>, pl: Seq<char>, ty: SignalType|
                vs != envelope_json(f, pl, ty) by {
                if vs == envelope_json(f, pl, ty) {
                    lemma_envelope_parts(f, pl, ty, vs);
                    lemma_field_align(vs, 12, e1 as int, fv@, f, rest1(f, pl, ty));
                    lemma_prefix_lit(vs, e1 as int, ",\"payload\":\""@, esc(pl) + seq!['"'] + (
                    ",\"signal_type\":\""@ + (esc(signal_type_token(ty)) + seq!['"'] + "}"@)));
                    lemma_prefix_field(
                        vs,
                        e1 + 12,
                        pl,
                        ",\"signal_type\":\""@ + (esc(signal_type_token(ty)) + seq!['"']
                            + "}"@),
                    );
                }
            }
        }
        return None;
    }
    let (plv, e2) = sc2.unwrap();
    let ghost rest2 = |ty: SignalType|
        ",\"signal_type\":\""@ + (esc(signal_type_token(ty)) + seq!['"'] + "}"@);

    if !expect_lit(&v, e2, ",\"signal_type\":\"") {
        proof {
            assert forall|f: Seq<char>, pl: Seq<char>, ty: SignalType|
                vs != envelope_json(f, pl, ty) by {
                if vs == envelope_json(f, pl, ty) {
                    lemma_envelope_parts(f, pl, ty, vs);
                    lemma_field_align(vs, 12, e1 as int, fv@, f, rest1(f, pl, ty));
                    lemma_prefix_lit(vs, e1 as int, ",\"payload\":\""@, esc(pl) + seq!['"']
                        + rest2(ty));
                    lemma_field_align(vs, e1 + 12, e2 as int, plv@, pl, rest2(ty));
                    lemma_prefix_lit(vs, e2 as int, ",\"signal_type\":\""@, esc(
                        signal_type_token(ty),
                    ) + seq!['"'] + "}"@);
                }
            }
        }
        return None;
    }
    let sc3 = scan_string(&v, e2 + 16);
    if sc3.is_none() {
        proof {
            assert forall|f: Seq<char>, pl: Seq<char>, ty: SignalType|
                vs != envelope_json(f, pl, ty) by {
                if vs == envelope_json(f, pl, ty) {
                    lemma_envelope_parts(f, pl, ty, vs);
                    lemma_field_align(vs, 12, e1 as int, fv@, f, rest1(f, pl, ty));
                    lemma_prefix_lit(vs, e1 as int, ",\"payload\":\""@, esc(pl) + seq!['"']
                        + rest2(ty));
                    lemma_field_align(vs, e1 + 12, e2 as int, plv@, pl, rest2(ty));
                    lemma_prefix_lit(vs, e2 as int, ",\"signal_type\":\""@, esc(
                        signal_type_token(ty),
                    ) + seq!['"'] + "}"@);
                    lemma_prefix_field(vs, e2 + 16, signal_type_token(ty), "}"@);
                }
            }
        }
        return None;
    }
    let (tokv, e3) = sc3.unwrap();

    if !expect_lit(&v, e3, "}") || n - e3 != 1 {
        proof {
            reveal_strlit("}");
            assert forall|f: Seq<char>, pl: Seq<char>, ty: SignalType|
                vs != envelope_json(f, pl, ty) by {
                if vs == envelope_json(f, pl, ty) {
                    lemma_envelope_parts(f, pl, ty, vs);
                    lemma_field_align(vs, 12, e1 as int, fv@, f, rest1(f, pl, ty));
                    lemma_prefix_lit(vs, e1 as int, ",\"payload\":\""@, esc(pl) + seq!['"']
                        + rest2(ty));
                    lemma_field_align(vs, e1 + 12, e2 as int, plv@, pl, rest2(ty));
                    lemma_prefix_lit(vs, e2 as int, ",\"signal_type\":\""@, esc(
                        signal_type_token(ty),
                    ) + seq!['"'] + "}"@);
                    lemma_field_align(vs, e2 + 16, e3 as int, tokv@, signal_type_token(ty), "}"@);
                    assert(vs.subrange(e3 as int, n as int) == "}"@);
                    assert(n == e3 + 1);
                    lemma_prefix_lit(vs, e3 as int, "}"@, Seq::<char>::empty());
                }
            }
        }
        return None;
    }

    let tok_str = chars_to_string(&tokv);
    let ty: SignalType;
    if str_eq(tok_str.as_str(), "Offer") {
        ty = SignalType::Offer;
    } else if str_eq(tok_str.as_str(), "Answer") {
        ty = SignalType::Answer;
    } else if str_eq(tok_str.as_str(), "Candidate") {
        ty = SignalType::Candidate;
    } else {
        proof {
            assert forall|f: Seq<char>, pl: Seq<char>, ty2: SignalType|
                vs != envelope_json(f, pl, ty2) by {
                if vs == envelope_json(f, pl, ty2) {
                    lemma_envelope_parts(f, pl, ty2, vs);
                    lemma_field_align(vs, 12, e1 as int, fv@, f, rest1(f, pl, ty2));
                    lemma_prefix_lit(vs, e1 as int, ",\"payload\":\""@, esc(pl) + seq!['"']
                        + rest2(ty2));
                    lemma_field_align(vs, e1 + 12, e2 as int, plv@, pl, rest2(ty2));
                    lemma_prefix_lit(vs, e2 as int, ",\"signal_type\":\""@, esc(
                        signal_type_token(ty2),
                    ) + seq!['"'] + "}"@);
                    lemma_field_align(vs, e2 + 16, e3 as int, tokv@, signal_type_token(ty2), "}"@);
                    assert(tokv@ == signal_type_token(ty2));
                }
            }
        }
        return None;
    }
    proof {
        assert(tokv@ == signal_type_token(ty));
    }

    let from_id = chars_to_string(&fv);
    let payload = chars_to_string(&plv);
    proof {
        lemma_assemble_envelope(
            vs,
            e1 as int,
            e2 as int,
            e3 as int,
            fv@,
            plv@,
            ty,
        );
    }
    Some(SignalPayload { from_id, payload, signal_type: ty })
}

} // verus!
