//! Decimal numbers as text.

use vstd::prelude::*;
use crate::text;

verus! {

broadcast use vstd::seq::group_seq_axioms;

/// The character of a digit below ten.
pub open spec fn digit(d: nat) -> char {
    ((48 + d) as u32) as char
}

/// The decimal digits of `n`, without leading zeros.
pub open spec fn dec(n: nat) -> Seq<char>
    decreases n,
{
    if n < 10 {
        seq![digit(n)]
    } else {
        dec(n / 10).push(digit(n % 10))
    }
}

/// The decimal digits of `n` with a minus sign where it is negative.
pub open spec fn dec_int(n: int) -> Seq<char> {
    if n < 0 {
        seq!['-'] + dec((-n) as nat)
    } else {
        dec(n as nat)
    }
}

/// `dec(n)` with zeros in front of it up to `width` characters.
pub open spec fn dec_padded(n: nat, width: nat) -> Seq<char> {
    pad_left(dec(n), '0', width)
}

/// `s` with copies of `c` in front of it up to `width` characters.
pub open spec fn pad_left(s: Seq<char>, c: char, width: nat) -> Seq<char> {
    if s.len() >= width {
        s
    } else {
        Seq::new((width - s.len()) as nat, |i: int| c) + s
    }
}

/// `s` with copies of `c` behind it up to `width` characters.
pub open spec fn pad_right(s: Seq<char>, c: char, width: nat) -> Seq<char> {
    if s.len() >= width {
        s
    } else {
        s + Seq::new((width - s.len()) as nat, |i: int| c)
    }
}

fn digit_char(d: u64) -> (c: char)
    requires
        d < 10,
    ensures
        c == digit(d as nat),
{
    let b: u8 = 48 + d as u8;
    b as char
}

/// The decimal digits of `n`.
pub fn u64_to_string(n: u64) -> (r: String)
    ensures
        r@ == dec(n as nat),
    decreases n,
{
    if n < 10 {
        let mut s = String::new();
        s.push(digit_char(n));
        assert(s@ =~= seq![digit(n as nat)]);
        s
    } else {
        let mut s = u64_to_string(n / 10);
        s.push(digit_char(n % 10));
        s
    }
}

/// The decimal digits of `n`.
pub fn usize_to_string(n: usize) -> (r: String)
    ensures
        r@ == dec(n as nat),
{
    u64_to_string(n as u64)
}

/// The decimal digits of `n` with its sign.
pub fn i64_to_string(n: i64) -> (r: String)
    ensures
        r@ == dec_int(n as int),
{
    if n < 0 {
        let mut s = String::new();
        s.push('-');
        let m: u64 = ((-(n + 1)) as u64) + 1;
        let t = u64_to_string(m);
        assert(s@ =~= seq!['-']);
        s.push_str(&t);
        s
    } else {
        u64_to_string(n as u64)
    }
}

/// `s` with copies of `c` in front of it up to `width` characters.
pub fn str_pad_left(s: &str, c: char, width: usize) -> (r: String)
    ensures
        r@ == pad_left(s@, c, width as nat),
{
    let n = text::char_count(s);
    if n >= width {
        return s.to_owned();
    }
    let mut out = String::new();
    let mut i: usize = 0;
    while i < width - n
        invariant
            n < width,
            i <= width - n,
            out@ == Seq::new(i as nat, |j: int| c),
        decreases width - n - i,
    {
        out.push(c);
        i += 1;
        assert(out@ =~= Seq::new(i as nat, |j: int| c));
    }
    out.push_str(s);
    out
}

/// `s` with copies of `c` behind it up to `width` characters.
pub fn str_pad_right(s: &str, c: char, width: usize) -> (r: String)
    ensures
        r@ == pad_right(s@, c, width as nat),
{
    let n = text::char_count(s);
    let mut out = s.to_owned();
    if n >= width {
        return out;
    }
    let mut i: usize = 0;
    while i < width - n
        invariant
            n < width,
            i <= width - n,
            out@ == s@ + Seq::new(i as nat, |j: int| c),
        decreases width - n - i,
    {
        out.push(c);
        i += 1;
        assert(out@ =~= s@ + Seq::new(i as nat, |j: int| c));
    }
    out
}

/// `n` with zeros in front of it up to `width` characters.
pub fn usize_padded(n: usize, width: usize) -> (r: String)
    ensures
        r@ == dec_padded(n as nat, width as nat),
{
    let s = usize_to_string(n);
    str_pad_left(&s, '0', width)
}

// ---- reading -----------------------------------------------------------------

/// All characters of `s` are decimal digits.
pub open spec fn all_digits(s: Seq<char>) -> bool {
    forall|i: int| 0 <= i < s.len() ==> text::is_digit(#[trigger] s[i])
}

/// The number that a row of decimal digits stands for.
pub open spec fn value(s: Seq<char>) -> nat
    decreases s.len(),
{
    if s.len() == 0 {
        0
    } else {
        value(s.drop_last()) * 10 + (s.last() as nat - 48) as nat
    }
}

/// What an unsigned number up to `max` written as `s` is: digits, after an
/// optional plus sign, that stand for a number in range.
pub open spec fn parse_nat(s: Seq<char>, max: nat) -> Option<nat> {
    let d = if s.len() > 0 && s[0] == '+' {
        s.skip(1)
    } else {
        s
    };
    if d.len() > 0 && all_digits(d) && value(d) <= max {
        Some(value(d))
    } else {
        None
    }
}

proof fn value_monotone(s: Seq<char>, k: int)
    requires
        0 <= k <= s.len(),
        all_digits(s),
    ensures
        value(s.take(k)) <= value(s),
    decreases s.len(),
{
    if k == s.len() {
        assert(s.take(k) =~= s);
    } else {
        let t = s.drop_last();
        assert forall|i: int| 0 <= i < t.len() implies text::is_digit(#[trigger] t[i]) by {
            assert(t[i] == s[i]);
        }
        value_monotone(t, k);
        assert(t.take(k) =~= s.take(k));
        assert(text::is_digit(s.last()));
    }
}

/// The value of the digits `v[from..]`, where it is at most `max`.
fn digits_value(v: &[char], from: usize, max: u64) -> (r: Option<u64>)
    requires
        from <= v@.len(),
    ensures
        match r {
            Some(n) => all_digits(v@.skip(from as int)) && v@.skip(from as int).len() > 0 && n <= max && n
                == value(v@.skip(from as int)),
            None => !(all_digits(v@.skip(from as int)) && v@.skip(from as int).len() > 0 && value(
                v@.skip(from as int),
            ) <= max),
        },
{
    let ghost d = v@.skip(from as int);
    if from == v.len() {
        return None;
    }
    let mut n: u64 = 0;
    let mut i: usize = from;
    assert(d.take(0) =~= Seq::empty());
    while i < v.len()
        invariant
            from <= i <= v@.len(),
            d == v@.skip(from as int),
            n == value(d.take(i - from)),
            n <= max,
            forall|j: int| 0 <= j < i - from ==> text::is_digit(#[trigger] d[j]),
        decreases v@.len() - i,
    {
        let c = v[i];
        assert(d[i - from] == c);
        if !('0' <= c && c <= '9') {
            assert(!text::is_digit(d[i - from]));
            return None;
        }
        let x: u64 = (c as u32 - 48) as u64;
        proof {
            assert(d.take(i - from + 1).drop_last() =~= d.take(i - from));
            assert(d.take(i - from + 1).last() == c);
            assert(value(d.take(i - from + 1)) == n * 10 + x);
            if all_digits(d) {
                value_monotone(d, i - from + 1);
            }
        }
        if n > max / 10 {
            return None;
        }
        if x > max - n * 10 {
            return None;
        }
        n = n * 10 + x;
        i += 1;
    }
    assert(d.take(d.len() as int) =~= d);
    Some(n)
}

/// The unsigned number up to `max` that `s` is written as.
pub fn str_to_u64(s: &str, max: u64) -> (r: Option<u64>)
    ensures
        match r {
            Some(n) => parse_nat(s@, max as nat) == Some(n as nat),
            None => parse_nat(s@, max as nat) is None,
        },
{
    let v = text::chars_of(s);
    if v.len() > 0 && v[0] == '+' {
        digits_value(&v, 1, max)
    } else {
        assert(v@.skip(0) =~= v@);
        digits_value(&v, 0, max)
    }
}

/// What a signed 64-bit number written as `s` is.
pub open spec fn parse_i64(s: Seq<char>) -> Option<int> {
    if s.len() > 0 && s[0] == '-' {
        match parse_digits(s.skip(1), 0x8000_0000_0000_0000) {
            Some(n) => Some(-(n as int)),
            None => None,
        }
    } else {
        match parse_nat(s, i64::MAX as nat) {
            Some(n) => Some(n as int),
            None => None,
        }
    }
}

/// `parse_nat` without a plus sign.
pub open spec fn parse_digits(s: Seq<char>, max: nat) -> Option<nat> {
    if s.len() > 0 && all_digits(s) && value(s) <= max {
        Some(value(s))
    } else {
        None
    }
}

/// The signed 64-bit number that `s` is written as.
pub fn str_to_i64(s: &str) -> (r: Option<i64>)
    ensures
        match r {
            Some(n) => parse_i64(s@) == Some(n as int),
            None => parse_i64(s@) is None,
        },
{
    let v = text::chars_of(s);
    if v.len() > 0 && v[0] == '-' {
        match digits_value(&v, 1, 0x8000_0000_0000_0000) {
            Some(n) => {
                if n == 0x8000_0000_0000_0000 {
                    Some(i64::MIN)
                } else {
                    Some(-(n as i64))
                }
            },
            None => None,
        }
    } else {
        match str_to_u64(s, i64::MAX as u64) {
            Some(n) => Some(n as i64),
            None => None,
        }
    }
}

// ---- laws --------------------------------------------------------------------

/// Reading back the decimal digits of a number gives the number.
pub proof fn dec_reads_back(n: nat)
    ensures
        all_digits(dec(n)),
        dec(n).len() > 0,
        value(dec(n)) == n,
    decreases n,
{
    if n < 10 {
        let s = seq![digit(n)];
        assert(s.drop_last() =~= Seq::empty());
        assert(value(s.drop_last()) == 0);
        assert(s.last() == digit(n));
    } else {
        dec_reads_back(n / 10);
        let s = dec(n / 10).push(digit(n % 10));
        assert(s.drop_last() =~= dec(n / 10));
        assert forall|i: int| 0 <= i < s.len() implies text::is_digit(#[trigger] s[i]) by {
            if i < s.len() - 1 {
                assert(s[i] == dec(n / 10)[i]);
            }
        }
    }
}

} // verus!
