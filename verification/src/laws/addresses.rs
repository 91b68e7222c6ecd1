//! Addresses: what is written of an address is read back as that address.

use vstd::prelude::*;
use crate::digits;
use crate::ip;
use crate::ip::IpAddr;
use crate::laws::machine;
use crate::laws::texts;
use crate::pieces;
use crate::text;

verus! {

broadcast use vstd::seq::group_seq_axioms;

spec fn in_hex(v: Seq<u16>) -> Seq<Seq<char>> {
    v.map_values(|x: u16| ip::hex(x as nat))
}

/// A number in base sixteen is read back, and is at most four digits long where
/// it has sixteen bits.
pub proof fn numbers_in_base_sixteen_read_back(n: nat)
    ensures
        ip::hex_value(ip::hex(n)) == n,
        ip::hex(n).len() > 0,
        forall|i: int|
            0 <= i < ip::hex(n).len() ==> ip::hex_digit(#[trigger] ip::hex(n)[i]) is Some,
        n < 65536 ==> ip::hex(n).len() <= 4 && ip::group(ip::hex(n)) == Some(n as u16),
    decreases n,
{
    let s = ip::hex(n);
    let d = n % 16;
    assert(ip::hex_digit(ip::hex_char(d)) == Some(d));
    if n < 16 {
        assert(s.drop_last() =~= Seq::<char>::empty());
        assert(ip::hex_value(s.drop_last()) == 0);
    } else {
        numbers_in_base_sixteen_read_back(n / 16);
        assert(s.drop_last() =~= ip::hex(n / 16));
        assert(s.last() == ip::hex_char(d));
        assert forall|i: int| 0 <= i < s.len() implies ip::hex_digit(#[trigger] s[i]) is Some by {
            if i < s.len() - 1 {
                assert(s[i] == ip::hex(n / 16)[i]);
            }
        }
    }
    if n < 65536 {
        reveal_with_fuel(ip::hex, 5);
    }
}

proof fn hex_lacks(n: nat, c: char)
    requires
        ip::hex_digit(c) is None,
    ensures
        texts::lacks(ip::hex(n), c),
{
    numbers_in_base_sixteen_read_back(n);
}

proof fn joined_come_apart(p: Seq<Seq<char>>, c: char)
    requires
        p.len() > 0,
        forall|i: int| 0 <= i < p.len() ==> texts::lacks(#[trigger] p[i], c),
    ensures
        pieces::split_char(pieces::join(p, seq![c]), c) == p,
    decreases p.len(),
{
    if p.len() == 1 {
        texts::pieces_stand_between_separators(p[0], c, Seq::empty());
        assert(p =~= seq![p[0]]);
    } else {
        let rest = p.skip(1);
        assert(p =~= seq![p[0]] + rest);
        assert forall|i: int| 0 <= i < rest.len() implies texts::lacks(#[trigger] rest[i], c) by {
            assert(rest[i] == p[i + 1]);
        }
        joined_come_apart(rest, c);
        pieces::join_first(p[0], rest, seq![c]);
        texts::pieces_stand_between_separators(p[0], c, pieces::join(rest, seq![c]));
    }
}

spec fn no_pair(t: Seq<char>, c: char) -> bool {
    forall|i: int| 0 <= i && i + 1 < t.len() ==> !(#[trigger] t[i] == c && t[i + 1] == c)
}

proof fn separators_stand_alone(p: Seq<Seq<char>>, c: char)
    requires
        p.len() > 0,
        forall|i: int| 0 <= i < p.len() ==> texts::lacks(#[trigger] p[i], c) && p[i].len() > 0,
    ensures
        ({
            let t = pieces::join(p, seq![c]);
            t.len() > 0 && t[0] != c && t.last() != c && no_pair(t, c)
        }),
    decreases p.len(),
{
    let t = pieces::join(p, seq![c]);
    if p.len() > 1 {
        let a = pieces::join(p.drop_last(), seq![c]);
        let last = p.last();
        assert forall|i: int| 0 <= i < p.drop_last().len() implies texts::lacks(
            #[trigger] p.drop_last()[i],
            c,
        ) && p.drop_last()[i].len() > 0 by {
            assert(p.drop_last()[i] == p[i]);
        }
        separators_stand_alone(p.drop_last(), c);
        assert(t == a + seq![c] + last);
        assert(texts::lacks(p[p.len() - 1], c));
        assert forall|i: int| 0 <= i && i + 1 < t.len() implies !(#[trigger] t[i] == c && t[i + 1]
            == c) by {
            if i + 1 < a.len() {
                assert(t[i] == a[i] && t[i + 1] == a[i + 1]);
            } else if i + 1 == a.len() {
                assert(t[i] == a.last());
            } else {
                assert(t[i + 1] == last[i + 1 - a.len() - 1]);
            }
        }
        assert(t.last() == last[last.len() - 1]);
        assert(t[0] == a[0]);
    } else {
        assert(texts::lacks(p[0], c));
    }
}

proof fn groups_read_back(v: Seq<u16>, dotted: bool)
    ensures
        ip::groups_of(in_hex(v), dotted) == Some(v),
    decreases v.len(),
{
    if v.len() > 0 {
        groups_read_back(v.drop_last(), false);
        assert(in_hex(v).drop_last() =~= in_hex(v.drop_last()));
        numbers_in_base_sixteen_read_back(v.last() as nat);
        assert(in_hex(v).last() == ip::hex(v.last() as nat));
        assert(v =~= v.drop_last() + seq![v.last()]);
    } else {
        assert(v =~= Seq::<u16>::empty());
    }
}

proof fn groups_come_apart(v: Seq<u16>)
    ensures
        ip::colon_pieces(ip::groups_text(v)) == in_hex(v),
        v.len() == 0 ==> ip::groups_text(v).len() == 0,
        v.len() > 0 ==> ip::groups_text(v).len() > 0 && ip::groups_text(v)[0] != ':'
            && ip::groups_text(v).last() != ':',
        no_pair(ip::groups_text(v), ':'),
{
    let p = in_hex(v);
    assert(ip::groups_text(v) == pieces::join(p, seq![':']));
    assert forall|i: int| 0 <= i < p.len() implies texts::lacks(#[trigger] p[i], ':') && p[i].len()
        > 0 by {
        assert(p[i] == ip::hex(v[i] as nat));
        hex_lacks(v[i] as nat, ':');
        numbers_in_base_sixteen_read_back(v[i] as nat);
    }
    if v.len() > 0 {
        joined_come_apart(p, ':');
        separators_stand_alone(p, ':');
    } else {
        assert(p =~= Seq::<Seq<char>>::empty());
    }
}

proof fn zeros_run(g: Seq<u16>, i: int)
    requires
        0 <= i <= g.len(),
    ensures
        i + ip::zero_run(g, i) <= g.len(),
        forall|j: int| i <= j < i + ip::zero_run(g, i) ==> #[trigger] g[j] == 0,
    decreases g.len() - i,
{
    if i < g.len() && g[i] == 0 {
        zeros_run(g, i + 1);
    }
}

/// The longest run of zero groups is a run of zeros, no other is longer, and the
/// first of several is taken.
pub proof fn longest_runs_are_zero(g: Seq<u16>, i: int, k: int)
    requires
        0 <= i <= k < g.len(),
    ensures
        ({
            let r = ip::longest_zero_run(g, i);
            &&& r.1 > 0 ==> i <= r.0 && r.0 + r.1 <= g.len()
            &&& forall|j: int| r.0 <= j < r.0 + r.1 ==> #[trigger] g[j] == 0
            &&& ip::zero_run(g, k) <= r.1
            &&& 0 < ip::zero_run(g, k) == r.1 ==> r.0 <= k
        }),
    decreases g.len() - i,
{
    zeros_run(g, i);
    if i + 1 < g.len() {
        if k > i {
            longest_runs_are_zero(g, i + 1, k);
        } else {
            longest_runs_are_zero(g, i + 1, i + 1);
        }
    } else {
        assert(ip::longest_zero_run(g, i + 1) == (0int, 0nat));
    }
}

proof fn shortened_read_back(a: Seq<u16>, b: Seq<u16>)
    requires
        a.len() + b.len() <= 7,
    ensures
        ip::v6_of(ip::groups_text(a) + "::"@ + ip::groups_text(b)) == Some(
            a + Seq::new((8 - a.len() - b.len()) as nat, |i: int| 0u16) + b,
        ),
{
    let x = ip::groups_text(a);
    let y = ip::groups_text(b);
    let p = seq![':', ':'];
    reveal_strlit("::");
    assert("::"@ =~= p);
    let s = x + "::"@ + y;
    groups_come_apart(a);
    groups_come_apart(b);
    groups_read_back(a, false);
    groups_read_back(b, true);
    text::find_from_is_first(s, p, 0);
    assert(s.subrange(x.len() as int, x.len() as int + 2) =~= p);
    assert(text::occurs_at(s, p, x.len() as int));
    assert(text::find(s, p) == Some(x.len() as int)) by {
        let k = text::find(s, p)->0;
        if k < x.len() {
            assert(text::occurs_at(s, p, k));
            assert(s.subrange(k, k + 2)[0] == ':' && s.subrange(k, k + 2)[1] == ':');
            assert(s[k] == ':' && s[k + 1] == ':');
            if k + 1 < x.len() {
                assert(x[k] == ':' && x[k + 1] == ':');
            } else {
                assert(x.last() == ':');
            }
        }
    }
    assert(s.take(x.len() as int) =~= x);
    assert(s.skip(x.len() as int + 2) =~= y);
}

proof fn full_read_back(g: Seq<u16>)
    requires
        g.len() == 8,
    ensures
        ip::v6_of(ip::groups_text(g)) == Some(g),
{
    let s = ip::groups_text(g);
    let p = seq![':', ':'];
    groups_come_apart(g);
    groups_read_back(g, true);
    text::find_from_is_first(s, p, 0);
    if text::find(s, p) is Some {
        let k = text::find(s, p)->0;
        assert(s.subrange(k, k + 2)[0] == ':' && s.subrange(k, k + 2)[1] == ':');
        assert(s[k] == ':' && s[k + 1] == ':');
    }
}

proof fn quad_is_no_group(a: u8, b: u8, c: u8, d: u8)
    ensures
        ip::v4_of(ip::v4_text(a, b, c, d)) == Some((a, b, c, d)),
        ip::group(ip::v4_text(a, b, c, d)) is None,
        texts::lacks(ip::v4_text(a, b, c, d), ':'),
{
    machine::addresses_read_back(a, b, c, d);
    let t = ip::v4_text(a, b, c, d);
    digits::dec_reads_back(a as nat);
    digits::dec_reads_back(b as nat);
    digits::dec_reads_back(c as nat);
    digits::dec_reads_back(d as nat);
    let at = digits::dec(a as nat).len() as int;
    assert(t[at] == '.');
    assert(ip::hex_digit('.') is None);
}

proof fn four_fs_are_a_group()
    ensures
        ip::group(seq!['f', 'f', 'f', 'f']) == Some(0xffffu16),
        ip::groups_of(seq![seq!['f', 'f', 'f', 'f']], false) == Some(seq![0xffffu16]),
{
    let f = seq!['f', 'f', 'f', 'f'];
    reveal_with_fuel(ip::hex_value, 5);
    assert(f.drop_last() =~= seq!['f', 'f', 'f']);
    assert(seq!['f', 'f', 'f'].drop_last() =~= seq!['f', 'f']);
    assert(seq!['f', 'f'].drop_last() =~= seq!['f']);
    assert(seq!['f'].drop_last() =~= Seq::<char>::empty());
    assert(ip::hex_digit('f') == Some(15nat));
    assert(ip::hex_value(f) == 65535);
    let v = seq![f];
    assert(v.drop_last() =~= Seq::<Seq<char>>::empty());
    assert(ip::groups_of(v.drop_last(), false) == Some(Seq::<u16>::empty()));
    assert(v.last() == f);
    assert(Seq::<u16>::empty() + seq![0xffffu16] =~= seq![0xffffu16]);
}

proof fn quads_are_two_groups(a: u8, b: u8, c: u8, d: u8)
    ensures
        ip::groups_of(seq![seq!['f', 'f', 'f', 'f']] + seq![ip::v4_text(a, b, c, d)], true) == Some(
            seq![0xffffu16] + seq![ip::pair(a, b), ip::pair(c, d)],
        ),
{
    let f = seq!['f', 'f', 'f', 'f'];
    let q = ip::v4_text(a, b, c, d);
    let v = seq![f] + seq![q];
    quad_is_no_group(a, b, c, d);
    four_fs_are_a_group();
    assert(v.drop_last() =~= seq![f]);
    assert(v.last() == q);
}

proof fn embedded_is_no_quad(a: u8, b: u8, c: u8, d: u8)
    ensures
        ip::v4_of("::ffff:"@ + ip::v4_text(a, b, c, d)) is None,
{
    let s = "::ffff:"@ + ip::v4_text(a, b, c, d);
    reveal_strlit("::ffff:");
    let first = "::ffff:"@ + digits::dec(a as nat);
    let rest = digits::dec(b as nat) + seq!['.'] + digits::dec(c as nat) + seq!['.'] + digits::dec(
        d as nat,
    );
    digits::dec_reads_back(a as nat);
    assert(texts::lacks(first, '.'));
    assert(s =~= first + seq!['.'] + rest);
    texts::pieces_stand_between_separators(first, '.', rest);
    assert(pieces::split_char(s, '.')[0] == first);
    assert(first[0] == ':');
    assert(ip::octet(first) is None);
}

proof fn embedded_read_back(g: Seq<u16>)
    requires
        g.len() == 8,
        forall|i: int| 0 <= i < 5 ==> #[trigger] g[i] == 0,
        g[5] == 0xffff,
    ensures
        ip::v6_of(ip::v6_text(g)) == Some(g),
        ip::v4_of(ip::v6_text(g)) is None,
{
    let a = (g[6] / 256) as u8;
    let b = (g[6] % 256) as u8;
    let c = (g[7] / 256) as u8;
    let d = (g[7] % 256) as u8;
    let q = ip::v4_text(a, b, c, d);
    let s = "::ffff:"@ + q;
    let p = seq![':', ':'];
    let f = seq!['f', 'f', 'f', 'f'];
    embedded_is_no_quad(a, b, c, d);
    quad_is_no_group(a, b, c, d);
    quads_are_two_groups(a, b, c, d);
    assert(text::find(s, p) == Some(0int) && s.take(0).len() == 0 && s.skip(2) == f + seq![':']
        + q) by {
        reveal_strlit("::ffff:");
        assert(s.subrange(0, 2) =~= p);
        assert(text::occurs_at(s, p, 0));
        assert(s.skip(2) =~= f + seq![':'] + q);
    }
    texts::pieces_stand_between_separators(f, ':', q);
    texts::pieces_stand_between_separators(q, ':', Seq::empty());
    let v = seq![f] + seq![q];
    assert(ip::colon_pieces(s.skip(2)) == v);
    let r = seq![0xffffu16] + seq![ip::pair(a, b), ip::pair(c, d)];
    assert(ip::pair(a, b) == g[6] && ip::pair(c, d) == g[7]);
    assert(ip::groups_of(ip::colon_pieces(s.take(0)), false) == Some(Seq::<u16>::empty()));
    let zeros = Seq::new(5, |i: int| 0u16);
    assert(Seq::<u16>::empty() + zeros + r =~= g);
    assert(ip::v6_of(s) == Some(g));
}

proof fn plain_is_no_quad(s: Seq<char>)
    requires
        texts::lacks(s, '.'),
    ensures
        ip::v4_of(s) is None,
{
    texts::pieces_stand_between_separators(s, '.', Seq::empty());
}

proof fn joined_lack(p: Seq<Seq<char>>, sep: char, c: char)
    requires
        sep != c,
        forall|i: int| 0 <= i < p.len() ==> texts::lacks(#[trigger] p[i], c),
    ensures
        texts::lacks(pieces::join(p, seq![sep]), c),
    decreases p.len(),
{
    if p.len() > 1 {
        assert forall|i: int| 0 <= i < p.drop_last().len() implies texts::lacks(
            #[trigger] p.drop_last()[i],
            c,
        ) by {
            assert(p.drop_last()[i] == p[i]);
        }
        joined_lack(p.drop_last(), sep, c);
        assert(texts::lacks(p[p.len() - 1], c));
    } else if p.len() == 1 {
        assert(texts::lacks(p[0], c));
    }
}

proof fn groups_lack_dots(v: Seq<u16>)
    ensures
        texts::lacks(ip::groups_text(v), '.'),
{
    let p = in_hex(v);
    assert forall|i: int| 0 <= i < p.len() implies texts::lacks(#[trigger] p[i], '.') by {
        assert(p[i] == ip::hex(v[i] as nat));
        hex_lacks(v[i] as nat, '.');
    }
    joined_lack(p, ':', '.');
}

/// Every address is read back as it was written, in the short form or the long.
pub proof fn written_addresses_read_back(x: IpAddr)
    ensures
        ip::ip_of(ip::ip_text(x)) == Some(x),
{
    match x {
        IpAddr::V4(a, b, c, d) => {
            machine::addresses_read_back(a, b, c, d);
        },
        IpAddr::V6(a, b, c, d, e, f, h, k) => {
            let g = seq![a, b, c, d, e, f, h, k];
            long_read_back(g);
        },
    }
}

proof fn long_read_back(g: Seq<u16>)
    requires
        g.len() == 8,
    ensures
        ip::v6_of(ip::v6_text(g)) == Some(g),
        ip::v4_of(ip::v6_text(g)) is None,
{
    if g[0] == 0 && g[1] == 0 && g[2] == 0 && g[3] == 0 && g[4] == 0 && g[5] == 0xffff {
        assert(forall|i: int| 0 <= i < 5 ==> #[trigger] g[i] == 0);
        embedded_read_back(g);
    } else {
        let run = ip::longest_zero_run(g, 0);
        longest_runs_are_zero(g, 0, 0);
        if run.1 > 1 {
            let a = g.take(run.0);
            let b = g.skip(run.0 + run.1);
            shortened_read_back(a, b);
            let zeros = Seq::new((8 - a.len() - b.len()) as nat, |i: int| 0u16);
            assert(a + zeros + b =~= g);
            groups_lack_dots(a);
            groups_lack_dots(b);
            reveal_strlit("::");
            assert(texts::lacks(ip::groups_text(a) + "::"@ + ip::groups_text(b), '.'));
            plain_is_no_quad(ip::v6_text(g));
        } else {
            full_read_back(g);
            groups_lack_dots(g);
            plain_is_no_quad(ip::v6_text(g));
        }
    }
}

/// A double colon stands for as many zero groups as are missing, wherever it
/// stands.
pub proof fn double_colons_stand_for_zeros(a: Seq<u16>, b: Seq<u16>, i: int)
    requires
        a.len() + b.len() <= 7,
    ensures
        ip::v6_of(ip::groups_text(a) + "::"@ + ip::groups_text(b)) matches Some(g) && g.len() == 8
            && (0 <= i < a.len() ==> g[i] == a[i]) && (a.len() <= i < 8 - b.len() ==> g[i] == 0) && (
        8 - b.len() <= i < 8 ==> g[i] == b[i - (8 - b.len())]),
{
    shortened_read_back(a, b);
}

} // verus!
