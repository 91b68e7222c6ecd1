//! Texts: searching, trimming, splitting and joining.

use vstd::prelude::*;
use crate::pieces;
use crate::text;

verus! {

broadcast use vstd::seq::group_seq_axioms;

/// Letters, digits, `-`, `_` and `.`: what names and versions are made of.
pub open spec fn is_plain_char(c: char) -> bool {
    ||| '0' <= c <= '9'
    ||| 'a' <= c <= 'z'
    ||| 'A' <= c <= 'Z'
    ||| c == '-'
    ||| c == '_'
    ||| c == '.'
}

/// A text that is made of such characters, and is not empty.
pub open spec fn is_plain(s: Seq<char>) -> bool {
    &&& s.len() > 0
    &&& forall|i: int| 0 <= i < s.len() ==> is_plain_char(#[trigger] s[i])
}

/// A text without the character `c`.
pub open spec fn lacks(s: Seq<char>, c: char) -> bool {
    forall|i: int| 0 <= i < s.len() ==> (#[trigger] s[i]) != c
}

pub proof fn plain_lacks(s: Seq<char>, c: char)
    requires
        is_plain(s),
        !is_plain_char(c),
    ensures
        lacks(s, c),
{
}

/// A text has none of the parts that need a character that it lacks.
pub proof fn lacking_texts_have_no_part(s: Seq<char>, p: Seq<char>, m: int)
    requires
        0 <= m < p.len(),
        lacks(s, p[m]),
    ensures
        text::find(s, p) is None,
        !text::contains(s, p),
        !text::starts_with(s, p),
{
    text::find_from_is_first(s, p, 0);
    text::contains_iff_found(s, p);
    match text::find(s, p) {
        Some(k) => {
            assert(s.subrange(k, k + p.len())[m] == s[k + m]);
        },
        None => {},
    }
    if text::starts_with(s, p) {
        assert(s.subrange(0, p.len() as int)[m] == s[m]);
    }
}

/// A part is found where it stands first.
pub proof fn parts_are_found_where_they_stand(a: Seq<char>, p: Seq<char>, b: Seq<char>)
    requires
        p.len() > 0,
        lacks(a, p[0]),
    ensures
        text::find(a + p + b, p) == Some(a.len() as int),
        text::contains(a + p + b, p),
{
    let s = a + p + b;
    let k: int = a.len() as int;
    assert(s.subrange(k, k + p.len()) =~= p);
    assert(text::occurs_at(s, p, k));
    text::contains_iff_found(s, p);
    text::find_from_is_first(s, p, 0);
    let f = text::find_from(s, p, 0);
    assert(f is Some);
    let m: int = f->0;
    assert(m <= k);
    if m < k {
        assert(s.subrange(m, m + p.len())[0] == s[m]);
        assert(s[m] == a[m]);
        assert(false);
    }
}

/// A text holds each of the parts that it is put together from.
pub proof fn wholes_hold_their_parts(a: Seq<char>, p: Seq<char>, b: Seq<char>)
    ensures
        text::contains(a + p + b, p),
        text::starts_with(p + b, p),
        text::ends_with(a + p, p),
{
    assert((a + p + b).subrange(a.len() as int, (a.len() + p.len()) as int) =~= p);
    assert(text::occurs_at(a + p + b, p, a.len() as int));
    assert((p + b).subrange(0, p.len() as int) =~= p);
    assert((a + p).subrange(a.len() as int, (a + p).len() as int) =~= p);
}

/// What a part holds, the whole holds.
pub proof fn wholes_hold_what_their_parts_hold(a: Seq<char>, m: Seq<char>, b: Seq<char>, p: Seq<char>)
    requires
        text::contains(m, p),
    ensures
        text::contains(a + m + b, p),
{
    let i = choose|i: int| text::occurs_at(m, p, i);
    assert(text::occurs_at(m, p, i));
    let s = a + m + b;
    assert(s.subrange(a.len() + i, a.len() + i + p.len()) =~= m.subrange(i, i + p.len()));
    assert(text::occurs_at(s, p, a.len() + i));
}

/// A text holds itself, and a longer one holds what either of its halves holds.
pub proof fn texts_hold_themselves(p: Seq<char>)
    ensures
        text::contains(p, p),
{
    assert(p.subrange(0, p.len() as int) =~= p);
    assert(text::occurs_at(p, p, 0));
}

pub proof fn longer_texts_hold_it(a: Seq<char>, b: Seq<char>, p: Seq<char>)
    requires
        text::contains(a, p) || text::contains(b, p),
    ensures
        text::contains(a + b, p),
{
    let e = Seq::<char>::empty();
    if text::contains(a, p) {
        wholes_hold_what_their_parts_hold(e, a, b, p);
        assert(e + a + b =~= a + b);
    } else {
        wholes_hold_what_their_parts_hold(a, b, e, p);
        assert(a + b + e =~= a + b);
    }
}

/// What a part of a text holds, the text holds.
pub proof fn parts_hold_for_the_whole(a: Seq<char>, b: Seq<char>, c: Seq<char>)
    requires
        text::contains(a, b),
        text::contains(b, c),
    ensures
        text::contains(a, c),
{
    let i = choose|i: int| text::occurs_at(a, b, i);
    let j = choose|j: int| text::occurs_at(b, c, j);
    assert(text::occurs_at(a, b, i) && text::occurs_at(b, c, j));
    assert(a.subrange(i + j, i + j + c.len()) =~= b.subrange(j, j + c.len())) by {
        assert(a.subrange(i, i + b.len()) == b);
        assert forall|m: int| 0 <= m < c.len() implies a[i + j + m] == #[trigger] b[j + m] by {
            assert(a.subrange(i, i + b.len())[j + m] == b[j + m]);
        }
    }
    assert(text::occurs_at(a, c, i + j));
}

/// Stripping a prefix undoes putting it in front, and a text that does not start
/// with the prefix has none to strip.
pub proof fn stripping_undoes_prefixing(p: Seq<char>, s: Seq<char>, t: Seq<char>)
    ensures
        text::strip_prefix(p + s, p) == Some(s),
        text::strip_prefix(t, p) is Some <==> t.len() >= p.len() && t.take(p.len() as int) == p,
{
    assert((p + s).subrange(0, p.len() as int) =~= p);
    assert((p + s).skip(p.len() as int) =~= s);
    if t.len() >= p.len() {
        assert(t.subrange(0, p.len() as int) =~= t.take(p.len() as int));
    }
}

/// Trimming takes white space from both ends and nothing else: the result stands
/// in the text, what was taken is white, and the result begins and ends with
/// something that is not.
pub proof fn trimming_takes_white_ends(a: Seq<char>, s: Seq<char>, b: Seq<char>)
    requires
        forall|i: int| 0 <= i < a.len() ==> text::is_white(#[trigger] a[i]),
        forall|i: int| 0 <= i < b.len() ==> text::is_white(#[trigger] b[i]),
        s.len() > 0 ==> !text::is_white(s[0]) && !text::is_white(s.last()),
    ensures
        pieces::trim(a + s + b) == s,
    decreases a.len() + b.len(),
{
    let t = a + s + b;
    if a.len() > 0 {
        assert(t[0] == a[0]);
        assert(t.skip(1) =~= a.skip(1) + s + b);
        assert forall|i: int| 0 <= i < a.skip(1).len() implies text::is_white(#[trigger] a.skip(1)[i]) by {
            assert(a.skip(1)[i] == a[i + 1]);
        }
        trimming_takes_white_ends(a.skip(1), s, b);
    } else if s.len() == 0 {
        pieces::blank_is_all_white(t);
        assert(t =~= b);
        assert(pieces::trim(t) =~= s);
    } else {
        assert(t =~= s + b);
        assert(t[0] == s[0]);
        assert(pieces::trim_start(t) == t);
        trim_end_of(s, b);
    }
}

proof fn trim_end_of(s: Seq<char>, b: Seq<char>)
    requires
        forall|i: int| 0 <= i < b.len() ==> text::is_white(#[trigger] b[i]),
        s.len() > 0,
        !text::is_white(s.last()),
    ensures
        pieces::trim_end(s + b) == s,
    decreases b.len(),
{
    let t = s + b;
    if b.len() > 0 {
        assert(t.last() == b.last());
        assert(b.last() == b[b.len() - 1]);
        assert(t.drop_last() =~= s + b.drop_last());
        trim_end_of(s, b.drop_last());
    } else {
        assert(t =~= s);
    }
}

/// A text without white ends is left as it is.
pub proof fn trimmed_texts_stay(s: Seq<char>)
    requires
        s.len() > 0 ==> !text::is_white(s[0]) && !text::is_white(s.last()),
    ensures
        pieces::trim(s) == s,
{
    let e = Seq::<char>::empty();
    trimming_takes_white_ends(e, s, e);
    assert(e + s + e =~= s);
}

/// Quotes round a text are taken off.
pub proof fn quotes_come_off(s: Seq<char>, c: char)
    requires
        s.len() > 0,
        s[0] != c,
        s.last() != c,
    ensures
        pieces::trim_char(seq![c] + s + seq![c], c) == s,
        pieces::trim_char(s, c) == s,
{
    reveal_with_fuel(pieces::trim_start_char, 3);
    reveal_with_fuel(pieces::trim_end_char, 3);
    let t = seq![c] + s + seq![c];
    assert(t.skip(1) =~= s + seq![c]);
    assert((s + seq![c])[0] == s[0]);
    assert((s + seq![c]).drop_last() =~= s);
}

/// The first piece before a separator that a text lacks is the text; the pieces
/// of a text with separators are the texts between them.
pub proof fn pieces_stand_between_separators(a: Seq<char>, c: char, b: Seq<char>)
    requires
        lacks(a, c),
    ensures
        pieces::index_of(a, c) is None,
        pieces::first_piece(a, c) == a,
        pieces::split_char(a, c) == seq![a],
        pieces::index_of(a + seq![c] + b, c) == Some(a.len() as int),
        pieces::first_piece(a + seq![c] + b, c) == a,
        pieces::split_char(a + seq![c] + b, c) == seq![a] + pieces::split_char(b, c),
{
    let s = a + seq![c] + b;
    pieces::index_from_bounds(a, c, 0);
    pieces::index_from_bounds(s, c, 0);
    assert(s[a.len() as int] == c);
    assert forall|i: int| 0 <= i < a.len() implies s[i] != c by {
        assert(s[i] == a[i]);
    }
    assert(s.take(a.len() as int) =~= a);
    assert(s.skip((a.len() + 1) as int) =~= b);
}

/// A separator that starts a text splits it there.
pub proof fn parts_stand_between_marks(a: Seq<char>, p: Seq<char>, b: Seq<char>)
    requires
        p.len() > 0,
        lacks(a, p[0]),
    ensures
        pieces::split_str(a, p) == seq![a],
        pieces::split_str(a + p + b, p) == seq![a] + pieces::split_str(b, p),
{
    parts_are_found_where_they_stand(a, p, b);
    lacking_texts_have_no_part(a, p, 0);
    let s = a + p + b;
    assert(s.take(a.len() as int) =~= a);
    assert(s.skip((a.len() + p.len()) as int) =~= b);
}

/// The lines of a text: a line ends at a line feed, with or without a carriage
/// return before it, and a last line need not end at all.
pub proof fn lines_end_at_line_feeds(a: Seq<char>, b: Seq<char>)
    requires
        lacks(a, '\n'),
    ensures
        a.len() > 0 ==> pieces::lines(a) == seq![a],
        a.len() == 0 ==> pieces::lines(a) == Seq::<Seq<char>>::empty(),
        a.len() == 0 || a.last() != '\r' ==> pieces::lines(a + seq!['\n'] + b) == seq![a]
            + pieces::lines(b),
        pieces::lines(a + seq!['\r'] + seq!['\n'] + b) == seq![a] + pieces::lines(b),
{
    pieces_stand_between_separators(a, '\n', b);
    let s = a + seq!['\n'] + b;
    assert(s.take(a.len() as int) =~= a);
    assert(s.skip((a.len() + 1) as int) =~= b);
    let a2 = a + seq!['\r'];
    assert(lacks(a2, '\n'));
    pieces_stand_between_separators(a2, '\n', b);
    let s2 = a2 + seq!['\n'] + b;
    assert(s2.take(a2.len() as int) =~= a2);
    assert(s2.skip((a2.len() + 1) as int) =~= b);
    assert(a2.drop_last() =~= a);
}

/// The words of a text are what stands between its white space.
pub proof fn words_stand_between_blanks(w: Seq<char>, c: char, b: Seq<char>)
    requires
        w.len() > 0,
        forall|i: int| 0 <= i < w.len() ==> !text::is_white(#[trigger] w[i]),
        text::is_white(c),
    ensures
        pieces::words(w) == seq![w],
        pieces::words(seq![c] + b) == pieces::words(b),
        pieces::words(w + seq![c] + b) == seq![w] + pieces::words(b),
        pieces::words(Seq::<char>::empty()) == Seq::<Seq<char>>::empty(),
{
    let s = w + seq![c] + b;
    word_ends(s, w.len() as int, 0);
    word_ends(w, w.len() as int, 0);
    assert(s.take(w.len() as int) =~= w);
    assert(s.skip(w.len() as int) =~= seq![c] + b);
    assert((seq![c] + b).skip(1) =~= b);
    assert(w.take(w.len() as int) =~= w);
    assert(w.skip(w.len() as int) =~= Seq::<char>::empty());
    assert(s[0] == w[0]);
    reveal_with_fuel(pieces::words, 2);
    assert(seq![w] + Seq::<Seq<char>>::empty() =~= seq![w]);
}

proof fn word_ends(s: Seq<char>, k: int, from: int)
    requires
        0 <= from <= k <= s.len(),
        forall|i: int| from <= i < k ==> !text::is_white(#[trigger] s[i]),
        k < s.len() ==> text::is_white(s[k]),
    ensures
        pieces::word_end(s, from) == k,
    decreases k - from,
{
    if from < k {
        word_ends(s, k, from + 1);
    }
}

/// The texts joined by a separator: one alone is itself, and one more is put
/// behind the separator.
pub proof fn joined_texts_keep_their_order(v: Seq<Seq<char>>, sep: Seq<char>, t: Seq<char>)
    ensures
        pieces::join(seq![t], sep) == t,
        v.len() > 0 ==> pieces::join(v.push(t), sep) == pieces::join(v, sep) + sep + t,
{
    assert(v.push(t).drop_last() =~= v);
}

/// A joined text holds each of the texts.
pub proof fn joined_texts_hold_each(v: Seq<Seq<char>>, sep: Seq<char>, k: int)
    requires
        0 <= k < v.len(),
    ensures
        text::contains(pieces::join(v, sep), v[k]),
    decreases v.len(),
{
    let e = Seq::<char>::empty();
    if v.len() == 1 {
        wholes_hold_their_parts(e, v[0], e);
        assert(e + v[0] + e =~= v[0]);
    } else if k == v.len() - 1 {
        let head = pieces::join(v.drop_last(), sep) + sep;
        wholes_hold_their_parts(head, v.last(), e);
        assert(head + v.last() + e =~= head + v.last());
    } else {
        joined_texts_hold_each(v.drop_last(), sep, k);
        let m = pieces::join(v.drop_last(), sep);
        wholes_hold_what_their_parts_hold(e, m, sep + v.last(), v[k]);
        assert(e + m + (sep + v.last()) =~= m + sep + v.last());
    }
}

/// A prefix that is taken off as often as it stands there comes off a text that
/// starts with it once.
pub proof fn prefixes_come_off(p: Seq<char>, s: Seq<char>)
    requires
        p.len() > 0,
        !text::starts_with(s, p),
    ensures
        pieces::trim_start_str(p + s, p) == s,
        pieces::trim_start_str(s, p) == s,
{
    wholes_hold_their_parts(Seq::empty(), p, s);
    assert((p + s).skip(p.len() as int) =~= s);
    reveal_with_fuel(pieces::trim_start_str, 2);
}

/// A character that ends a text comes off it.
pub proof fn ends_come_off(s: Seq<char>, c: char)
    requires
        s.len() > 0,
        s.last() != c,
    ensures
        pieces::trim_end_char(s + seq![c], c) == s,
        pieces::trim_end_char(s, c) == s,
{
    reveal_with_fuel(pieces::trim_end_char, 2);
    assert((s + seq![c]).drop_last() =~= s);
}

/// A repeated text is that text over and over.
pub proof fn repeated_texts_grow_by_the_text(s: Seq<char>, n: nat)
    ensures
        pieces::repeat(s, 0) == Seq::<char>::empty(),
        pieces::repeat(s, n + 1) == pieces::repeat(s, n) + s,
        pieces::repeat(s, n).len() == n * s.len(),
    decreases n,
{
    if n > 0 {
        repeated_texts_grow_by_the_text(s, (n - 1) as nat);
        assert(n * s.len() == (n - 1) * s.len() + s.len()) by (nonlinear_arith)
            requires
                n > 0,
        ;
    }
}

/// In a text of ASCII characters, letters lose their case and nothing else
/// changes.
pub proof fn cases_of_ascii_letters(s: Seq<char>, i: int)
    requires
        forall|j: int| 0 <= j < s.len() ==> '\0' <= #[trigger] s[j] <= '\u{7f}',
        0 <= i < s.len(),
    ensures
        text::lowercase(s).len() == s.len(),
        text::uppercase(s).len() == s.len(),
        'A' <= s[i] <= 'Z' ==> text::lowercase(s)[i] as u32 == s[i] as u32 + 32,
        !('A' <= s[i] <= 'Z') ==> text::lowercase(s)[i] == s[i],
        'a' <= s[i] <= 'z' ==> text::uppercase(s)[i] as u32 == s[i] as u32 - 32,
        !('a' <= s[i] <= 'z') ==> text::uppercase(s)[i] == s[i],
{
    assert(vstd::utf8::is_ascii_chars(s));
}

/// A text is cut to so many characters, and marked where something was cut.
pub proof fn cut_texts_are_prefixes(s: Seq<char>, n: nat)
    ensures
        s.len() <= n ==> text::truncated(s, n) == s && text::prefix(s, n) == s,
        s.len() > n ==> text::truncated(s, n) == s.take(n as int).push('…') && text::prefix(s, n)
            == s.take(n as int),
{
    reveal_strlit("…");
    if s.len() > n {
        assert(s.take(n as int) + "…"@ =~= s.take(n as int).push('…'));
    }
}

} // verus!
