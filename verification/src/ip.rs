//! IP addresses: their textual forms and the blocks that matter for egress.

use vstd::prelude::*;
use crate::digits;
use crate::pieces;
use crate::text;

verus! {

broadcast use {vstd::seq::group_seq_axioms, text::views_push, text::views_empty};

/// An IPv4 address by its four octets, or an IPv6 address by its eight groups.
#[derive(Clone, Copy, Debug, PartialEq, Eq, Structural)]
pub enum IpAddr {
    V4(u8, u8, u8, u8),
    V6(u16, u16, u16, u16, u16, u16, u16, u16),
}

// ---- reading -----------------------------------------------------------------

/// A decimal octet: one to three digits without a needless leading zero, at
/// most 255.
pub open spec fn octet(s: Seq<char>) -> Option<u8> {
    if 1 <= s.len() <= 3 && digits::all_digits(s) && (s.len() == 1 || s[0] != '0') && digits::value(s)
        <= 255 {
        Some(digits::value(s) as u8)
    } else {
        None
    }
}

/// A dotted quad: four octets with a dot between two of them.
pub open spec fn v4_of(s: Seq<char>) -> Option<(u8, u8, u8, u8)> {
    let p = pieces::split_char(s, '.');
    if p.len() == 4 && octet(p[0]) is Some && octet(p[1]) is Some && octet(p[2]) is Some && octet(p[3])
        is Some {
        Some((octet(p[0])->0, octet(p[1])->0, octet(p[2])->0, octet(p[3])->0))
    } else {
        None
    }
}

/// The value of a hexadecimal digit.
pub open spec fn hex_digit(c: char) -> Option<nat> {
    if '0' <= c && c <= '9' {
        Some((c as nat - 48) as nat)
    } else if 'a' <= c && c <= 'f' {
        Some((c as nat - 87) as nat)
    } else if 'A' <= c && c <= 'F' {
        Some((c as nat - 55) as nat)
    } else {
        None
    }
}

/// The value of a row of hexadecimal digits.
pub open spec fn hex_value(s: Seq<char>) -> nat
    decreases s.len(),
{
    if s.len() == 0 {
        0
    } else {
        hex_value(s.drop_last()) * 16 + (match hex_digit(s.last()) {
            Some(d) => d,
            None => 0,
        })
    }
}

/// One group of an IPv6 address: one to four hexadecimal digits.
pub open spec fn group(s: Seq<char>) -> Option<u16> {
    if 1 <= s.len() <= 4 && forall|i: int| 0 <= i < s.len() ==> hex_digit(#[trigger] s[i]) is Some {
        Some(hex_value(s) as u16)
    } else {
        None
    }
}

/// The groups that a list of pieces stands for. Where `dotted` holds, the last
/// piece may be a dotted quad, which stands for two groups.
pub open spec fn groups_of(p: Seq<Seq<char>>, dotted: bool) -> Option<Seq<u16>>
    decreases p.len(),
{
    if p.len() == 0 {
        Some(Seq::empty())
    } else {
        let tail: Option<Seq<u16>> = match group(p.last()) {
            Some(g) => Some(seq![g]),
            None => if dotted {
                match v4_of(p.last()) {
                    Some(q) => Some(seq![pair(q.0, q.1), pair(q.2, q.3)]),
                    None => None,
                }
            } else {
                None
            },
        };
        match (groups_of(p.drop_last(), false), tail) {
            (Some(a), Some(b)) => Some(a + b),
            _ => None,
        }
    }
}

/// Two octets as one group.
pub open spec fn pair(hi: u8, lo: u8) -> u16 {
    (hi as nat * 256 + lo as nat) as u16
}

/// The pieces of `s` between colons; an empty text has none.
pub open spec fn colon_pieces(s: Seq<char>) -> Seq<Seq<char>> {
    if s.len() == 0 {
        Seq::empty()
    } else {
        pieces::split_char(s, ':')
    }
}

/// The eight groups of an IPv6 address: all written out, or with one `::` that
/// stands for at least one group of zeros.
pub open spec fn v6_of(s: Seq<char>) -> Option<Seq<u16>> {
    match text::find(s, seq![':', ':']) {
        Some(k) => {
            let head = groups_of(colon_pieces(s.take(k)), false);
            let tail = groups_of(colon_pieces(s.skip(k + 2)), true);
            match (head, tail) {
                (Some(a), Some(b)) => if a.len() + b.len() <= 7 {
                    Some(a + Seq::new((8 - a.len() - b.len()) as nat, |i: int| 0u16) + b)
                } else {
                    None
                },
                _ => None,
            }
        },
        None => match groups_of(colon_pieces(s), true) {
            Some(a) => if a.len() == 8 {
                Some(a)
            } else {
                None
            },
            None => None,
        },
    }
}

/// The address that a text is the literal of.
pub open spec fn ip_of(s: Seq<char>) -> Option<IpAddr> {
    match v4_of(s) {
        Some(q) => Some(IpAddr::V4(q.0, q.1, q.2, q.3)),
        None => match v6_of(s) {
            Some(g) => Some(IpAddr::V6(g[0], g[1], g[2], g[3], g[4], g[5], g[6], g[7])),
            None => None,
        },
    }
}

fn parse_octet(s: &str) -> (r: Option<u8>)
    ensures
        r == octet(s@),
{
    let v = text::chars_of(s);
    if v.len() == 0 || v.len() > 3 || v[0] == '+' || (v.len() > 1 && v[0] == '0') {
        proof {
            if v.len() > 0 && v@[0] == '+' {
                assert(!text::is_digit(s@[0]));
            }
        }
        return None;
    }
    match digits::str_to_u64(s, 255) {
        Some(n) => Some(n as u8),
        None => None,
    }
}

fn parse_v4(s: &str) -> (r: Option<(u8, u8, u8, u8)>)
    ensures
        r == v4_of(s@),
{
    let p = pieces::str_split_char(s, '.');
    assert(text::views(p@).len() == p@.len());
    if p.len() != 4 {
        return None;
    }
    let a = parse_octet(&p[0]);
    let b = parse_octet(&p[1]);
    let c = parse_octet(&p[2]);
    let d = parse_octet(&p[3]);
    match (a, b, c, d) {
        (Some(a), Some(b), Some(c), Some(d)) => Some((a, b, c, d)),
        _ => None,
    }
}

fn parse_hex_digit(c: char) -> (r: Option<u16>)
    ensures
        match r {
            Some(d) => hex_digit(c) == Some(d as nat) && d < 16,
            None => hex_digit(c) is None,
        },
{
    if '0' <= c && c <= '9' {
        Some((c as u32 - 48) as u16)
    } else if 'a' <= c && c <= 'f' {
        Some((c as u32 - 87) as u16)
    } else if 'A' <= c && c <= 'F' {
        Some((c as u32 - 55) as u16)
    } else {
        None
    }
}

fn parse_group(s: &str) -> (r: Option<u16>)
    ensures
        r == group(s@),
{
    let v = text::chars_of(s);
    if v.len() == 0 || v.len() > 4 {
        return None;
    }
    let mut n: u32 = 0;
    let mut i: usize = 0;
    assert(v@.take(0) =~= Seq::empty());
    let mut cap: u32 = 1;
    while i < v.len()
        invariant
            i <= v@.len() <= 4,
            v@ == s@,
            n == hex_value(v@.take(i as int)),
            n < cap,
            i == 0 ==> cap == 1,
            i == 1 ==> cap == 16,
            i == 2 ==> cap == 256,
            i == 3 ==> cap == 4096,
            i == 4 ==> cap == 65536,
            forall|j: int| 0 <= j < i ==> hex_digit(#[trigger] v@[j]) is Some,
        decreases v@.len() - i,
    {
        match parse_hex_digit(v[i]) {
            None => {
                assert(hex_digit(s@[i as int]) is None);
                return None;
            },
            Some(d) => {
                proof {
                    assert(v@.take(i as int + 1).drop_last() =~= v@.take(i as int));
                    assert(v@.take(i as int + 1).last() == v@[i as int]);
                }
                n = n * 16 + d as u32;
                cap = cap * 16;
            },
        }
        i += 1;
    }
    assert(v@.take(v@.len() as int) =~= v@);
    Some(n as u16)
}

spec fn opt_seq(o: Option<Vec<u16>>) -> Option<Seq<u16>> {
    match o {
        Some(v) => Some(v@),
        None => None,
    }
}

/// `groups_of` on a prefix that holds a bad piece is `None`.
proof fn groups_prefix_bad(p: Seq<Seq<char>>, k: int, dotted: bool)
    requires
        0 <= k < p.len(),
        groups_of(p.take(k), false) is None,
    ensures
        groups_of(p, dotted) is None,
    decreases p.len(),
{
    if k == p.len() - 1 {
        assert(p.drop_last() =~= p.take(k));
    } else {
        assert(p.drop_last().take(k) =~= p.take(k));
        groups_prefix_bad(p.drop_last(), k, false);
    }
}

fn parse_groups(p: &Vec<String>, dotted: bool) -> (r: Option<Vec<u16>>)
    ensures
        opt_seq(r) == groups_of(text::views(p@), dotted),
{
    let ghost all = text::views(p@);
    let mut out: Vec<u16> = Vec::new();
    let mut i: usize = 0;
    assert(all.take(0) =~= Seq::empty());
    while i < p.len()
        invariant
            i <= p@.len(),
            all == text::views(p@),
            i < p@.len() ==> groups_of(all.take(i as int), false) == Some(out@),
            i == p@.len() ==> groups_of(all, dotted) == Some(out@),
        decreases p@.len() - i,
    {
        let ghost here = all.take(i as int + 1);
        proof {
            assert(here.drop_last() =~= all.take(i as int));
            assert(here.last() == p@[i as int]@);
            if i as int + 1 == all.len() {
                assert(here =~= all);
            }
        }
        let last = i + 1 == p.len();
        match parse_group(&p[i]) {
            Some(g) => {
                let ghost before = out@;
                out.push(g);
                assert(before.push(g) =~= before + seq![g]);
            },
            None => {
                if dotted && last {
                    match parse_v4(&p[i]) {
                        Some(q) => {
                            let ghost before = out@;
                            let hi: u16 = (q.0 as u16) * 256 + q.1 as u16;
                            let lo: u16 = (q.2 as u16) * 256 + q.3 as u16;
                            out.push(hi);
                            out.push(lo);
                            assert(before.push(hi).push(lo) =~= before + seq![hi, lo]);
                        },
                        None => {
                            return None;
                        },
                    }
                } else {
                    proof {
                        assert(groups_of(here, false) is None);
                        if !last {
                            groups_prefix_bad(all, i as int + 1, dotted);
                        }
                    }
                    return None;
                }
            },
        }
        i += 1;
    }
    assert(p@.len() == 0 ==> all =~= Seq::empty());
    Some(out)
}

fn parse_colon_groups(s: &str, dotted: bool) -> (r: Option<Vec<u16>>)
    ensures
        opt_seq(r) == groups_of(colon_pieces(s@), dotted),
{
    if s.is_empty() {
        let p: Vec<String> = Vec::new();
        assert(text::views(p@) =~= Seq::empty());
        parse_groups(&p, dotted)
    } else {
        let p = pieces::str_split_char(s, ':');
        parse_groups(&p, dotted)
    }
}

fn parse_v6(s: &str) -> (r: Option<Vec<u16>>)
    ensures
        opt_seq(r) == v6_of(s@),
        r matches Some(g) ==> g@.len() == 8,
{
    let v = text::chars_of(s);
    let mut sep: Vec<char> = Vec::new();
    sep.push(':');
    sep.push(':');
    assert(sep@ =~= seq![':', ':']);
    match text::chars_find_from(&v, &sep, 0) {
        Some(k) => {
            let n: usize = v.len();
            let head_text = text::string_range(&v, 0, k);
            let tail_text = text::string_range(&v, k + 2, n);
            assert(head_text@ =~= s@.take(k as int));
            assert(tail_text@ =~= s@.skip(k as int + 2));
            let head = parse_colon_groups(&head_text, false);
            let tail = parse_colon_groups(&tail_text, true);
            match (head, tail) {
                (Some(a), Some(b)) => {
                    if a.len() > 7 || b.len() > 7 - a.len() {
                        return None;
                    }
                    let zeros: usize = 8 - a.len() - b.len();
                    let ghost za = a@;
                    let mut out = a;
                    let mut i: usize = 0;
                    while i < zeros
                        invariant
                            i <= zeros,
                            out@ == za + Seq::new(i as nat, |j: int| 0u16),
                        decreases zeros - i,
                    {
                        out.push(0);
                        i += 1;
                        assert(out@ =~= za + Seq::new(i as nat, |j: int| 0u16));
                    }
                    let mut j: usize = 0;
                    let ghost mid = out@;
                    assert(mid + b@.take(0) =~= mid);
                    while j < b.len()
                        invariant
                            j <= b@.len(),
                            out@ == mid + b@.take(j as int),
                        decreases b@.len() - j,
                    {
                        out.push(b[j]);
                        j += 1;
                        assert(out@ =~= mid + b@.take(j as int));
                    }
                    assert(b@.take(b@.len() as int) =~= b@);
                    Some(out)
                },
                _ => None,
            }
        },
        None => {
            match parse_colon_groups(s, true) {
                Some(a) => {
                    if a.len() == 8 {
                        Some(a)
                    } else {
                        None
                    }
                },
                None => None,
            }
        },
    }
}

impl IpAddr {
    /// The address that `s` is the literal of.
    pub fn parse(s: &str) -> (r: Option<IpAddr>)
        ensures
            r == ip_of(s@),
    {
        match parse_v4(s) {
            Some(q) => Some(IpAddr::V4(q.0, q.1, q.2, q.3)),
            None => match parse_v6(s) {
                Some(g) => Some(IpAddr::V6(g[0], g[1], g[2], g[3], g[4], g[5], g[6], g[7])),
                None => None,
            },
        }
    }
}

// ---- writing -----------------------------------------------------------------

/// The lowercase hexadecimal character of a digit below sixteen.
pub open spec fn hex_char(d: nat) -> char {
    if d < 10 {
        ((48 + d) as u32) as char
    } else {
        ((87 + d) as u32) as char
    }
}

/// The lowercase hexadecimal digits of `n`, without leading zeros.
pub open spec fn hex(n: nat) -> Seq<char>
    decreases n,
{
    if n < 16 {
        seq![hex_char(n)]
    } else {
        hex(n / 16).push(hex_char(n % 16))
    }
}

/// The four octets with a dot between two of them.
pub open spec fn v4_text(a: u8, b: u8, c: u8, d: u8) -> Seq<char> {
    digits::dec(a as nat) + seq!['.'] + digits::dec(b as nat) + seq!['.'] + digits::dec(c as nat)
        + seq!['.'] + digits::dec(d as nat)
}

/// How many groups of zeros follow one another from `i` on.
pub open spec fn zero_run(g: Seq<u16>, i: int) -> nat
    decreases g.len() - i,
{
    if i < 0 || i >= g.len() || g[i] != 0 {
        0
    } else {
        1 + zero_run(g, i + 1)
    }
}

/// The longest run of zeros at or after `i`, the first of several as long:
/// where it starts and how many groups it has.
pub open spec fn longest_zero_run(g: Seq<u16>, i: int) -> (int, nat)
    decreases g.len() - i,
{
    if i >= g.len() {
        (0, 0)
    } else {
        let rest = longest_zero_run(g, i + 1);
        if zero_run(g, i) >= rest.1 && zero_run(g, i) > 0 {
            (i, zero_run(g, i))
        } else {
            rest
        }
    }
}

/// The groups in hexadecimal with a colon between two of them.
pub open spec fn groups_text(g: Seq<u16>) -> Seq<char> {
    pieces::join(g.map_values(|x: u16| hex(x as nat)), seq![':'])
}

/// The canonical text of an IPv6 address: the longest run of two or more zero
/// groups is written `::`, and an IPv4-mapped address ends in a dotted quad.
pub open spec fn v6_text(g: Seq<u16>) -> Seq<char> {
    if g[0] == 0 && g[1] == 0 && g[2] == 0 && g[3] == 0 && g[4] == 0 && g[5] == 0xffff {
        "::ffff:"@ + v4_text((g[6] / 256) as u8, (g[6] % 256) as u8, (g[7] / 256) as u8, (g[7] % 256) as u8)
    } else {
        let run = longest_zero_run(g, 0);
        if run.1 > 1 {
            groups_text(g.take(run.0)) + "::"@ + groups_text(g.skip(run.0 + run.1))
        } else {
            groups_text(g)
        }
    }
}

/// The canonical text of an address.
pub open spec fn ip_text(ip: IpAddr) -> Seq<char> {
    match ip {
        IpAddr::V4(a, b, c, d) => v4_text(a, b, c, d),
        IpAddr::V6(a, b, c, d, e, f, g, h) => v6_text(seq![a, b, c, d, e, f, g, h]),
    }
}

fn write_hex(n: u16) -> (r: String)
    ensures
        r@ == hex(n as nat),
    decreases n,
{
    let d: u16 = n % 16;
    let b: u8 = if d < 10 {
        48 + d as u8
    } else {
        87 + d as u8
    };
    let c = b as char;
    if n < 16 {
        let mut s = String::new();
        s.push(c);
        assert(s@ =~= seq![hex_char(n as nat)]);
        s
    } else {
        let mut s = write_hex(n / 16);
        s.push(c);
        s
    }
}

fn write_v4(a: u8, b: u8, c: u8, d: u8) -> (r: String)
    ensures
        r@ == v4_text(a, b, c, d),
{
    let mut s = digits::u64_to_string(a as u64);
    let t = digits::u64_to_string(b as u64);
    let u = digits::u64_to_string(c as u64);
    let v = digits::u64_to_string(d as u64);
    s.push('.');
    s.push_str(&t);
    s.push('.');
    s.push_str(&u);
    s.push('.');
    s.push_str(&v);
    assert(s@ =~= v4_text(a, b, c, d));
    s
}

fn write_groups(g: &[u16], from: usize, to: usize) -> (r: String)
    requires
        from <= to <= g@.len(),
    ensures
        r@ == groups_text(g@.subrange(from as int, to as int)),
{
    let mut parts: Vec<String> = Vec::new();
    let mut i: usize = from;
    let ghost want = g@.subrange(from as int, to as int).map_values(|x: u16| hex(x as nat));
    while i < to
        invariant
            from <= i <= to <= g@.len(),
            want == g@.subrange(from as int, to as int).map_values(|x: u16| hex(x as nat)),
            text::views(parts@) == want.take(i - from),
        decreases to - i,
    {
        let h = write_hex(g[i]);
        parts.push(h);
        assert(want.take(i - from + 1) =~= want.take(i - from).push(want[i - from]));
        i += 1;
    }
    assert(want.take(to - from) =~= want);
    let mut colon = String::new();
    colon.push(':');
    assert(colon@ =~= seq![':']);
    pieces::str_join(&parts, &colon)
}

fn run_from(g: &[u16], from: usize) -> (n: usize)
    requires
        from <= g@.len(),
    ensures
        n == zero_run(g@, from as int),
        from + n <= g@.len(),
    decreases g@.len() - from,
{
    if from == g.len() || g[from] != 0 {
        0
    } else {
        let rest = run_from(g, from + 1);
        rest + 1
    }
}

fn longest_run(g: &[u16], from: usize) -> (r: (usize, usize))
    requires
        from <= g@.len(),
    ensures
        (r.0 as int, r.1 as nat) == longest_zero_run(g@, from as int),
        r.0 + r.1 <= g@.len(),
    decreases g@.len() - from,
{
    if from == g.len() {
        (0, 0)
    } else {
        let rest = longest_run(g, from + 1);
        let here = run_from(g, from);
        if here >= rest.1 && here > 0 {
            (from, here)
        } else {
            rest
        }
    }
}

fn write_v6(g: &Vec<u16>) -> (r: String)
    requires
        g@.len() == 8,
    ensures
        r@ == v6_text(g@),
{
    if g[0] == 0 && g[1] == 0 && g[2] == 0 && g[3] == 0 && g[4] == 0 && g[5] == 0xffff {
        let mut s = "::ffff:".to_owned();
        let q = write_v4((g[6] / 256) as u8, (g[6] % 256) as u8, (g[7] / 256) as u8, (g[7] % 256) as u8);
        s.push_str(&q);
        s
    } else {
        let run = longest_run(g, 0);
        if run.1 > 1 {
            let mut s = write_groups(g, 0, run.0);
            assert(g@.subrange(0, run.0 as int) =~= g@.take(run.0 as int));
            s.push_str("::");
            let t = write_groups(g, run.0 + run.1, 8);
            assert(g@.subrange(run.0 + run.1, 8) =~= g@.skip(run.0 + run.1));
            s.push_str(&t);
            s
        } else {
            assert(g@.subrange(0, 8) =~= g@);
            write_groups(g, 0, 8)
        }
    }
}

impl IpAddr {
    /// The canonical text of the address.
    pub fn to_text(&self) -> (r: String)
        ensures
            r@ == ip_text(*self),
    {
        match self {
            IpAddr::V4(a, b, c, d) => write_v4(*a, *b, *c, *d),
            IpAddr::V6(a, b, c, d, e, f, g, h) => {
                let mut v: Vec<u16> = Vec::new();
                v.push(*a);
                v.push(*b);
                v.push(*c);
                v.push(*d);
                v.push(*e);
                v.push(*f);
                v.push(*g);
                v.push(*h);
                assert(v@ =~= seq![*a, *b, *c, *d, *e, *f, *g, *h]);
                write_v6(&v)
            },
        }
    }
}

// ---- link-local and metadata blocks --------------------------------------------

/// Link-local addresses and the block of the IPv6 metadata endpoint:
/// `169.254.0.0/16`, `fe80::/10` and `fd00:ec2::/32`.
pub open spec fn is_metadata(ip: IpAddr) -> bool {
    match ip {
        IpAddr::V4(a, b, _, _) => a == 169 && b == 254,
        IpAddr::V6(a, b, _, _, _, _, _, _) => (0xfe80 <= a && a <= 0xfebf) || (a == 0xfd00 && b == 0xec2),
    }
}

/// Whether `ip` is link-local or the IPv6 metadata endpoint.
pub fn ip_is_metadata(ip: &IpAddr) -> (r: bool)
    ensures
        r == is_metadata(*ip),
{
    match ip {
        IpAddr::V4(a, b, _, _) => *a == 169 && *b == 254,
        IpAddr::V6(a, b, _, _, _, _, _, _) => (0xfe80 <= *a && *a <= 0xfebf) || (*a == 0xfd00 && *b
            == 0xec2),
    }
}

} // verus!
