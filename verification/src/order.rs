//! Texts in order.

use vstd::prelude::*;
use crate::text;

verus! {

broadcast use {
    vstd::seq::group_seq_axioms,
    vstd::string::group_string_axioms,
    text::views_push,
    text::views_empty,
};

/// A text comes before another: at the first difference it has the lower code
/// point, or it ends there.
pub open spec fn precedes(a: Seq<char>, b: Seq<char>) -> bool
    decreases a.len(),
{
    if b.len() == 0 {
        false
    } else if a.len() == 0 {
        true
    } else if a[0] == b[0] {
        precedes(a.skip(1), b.skip(1))
    } else {
        (a[0] as int) < (b[0] as int)
    }
}

fn char_precedes(p: char, q: char) -> (r: bool)
    ensures
        r == ((p as int) < (q as int)),
{
    (p as u32) < (q as u32)
}

/// Whether a text comes before another.
pub fn str_precedes(a: &str, b: &str) -> (r: bool)
    ensures
        r == precedes(a@, b@),
{
    let x = text::chars_of(a);
    let y = text::chars_of(b);
    let mut i: usize = 0;
    assert(a@.skip(0) =~= a@);
    assert(b@.skip(0) =~= b@);
    while i < x.len() && i < y.len() && x[i] == y[i]
        invariant
            x@ == a@,
            y@ == b@,
            i <= x@.len(),
            i <= y@.len(),
            precedes(a@, b@) == precedes(a@.skip(i as int), b@.skip(i as int)),
        decreases x@.len() - i,
    {
        assert(a@.skip(i as int).skip(1) =~= a@.skip(i + 1));
        assert(b@.skip(i as int).skip(1) =~= b@.skip(i + 1));
        i += 1;
    }
    if i >= y.len() {
        false
    } else if i >= x.len() {
        true
    } else {
        char_precedes(x[i], y[i])
    }
}

/// No text comes before itself, and of two different texts one comes before
/// the other.
pub proof fn order_is_total(a: Seq<char>, b: Seq<char>)
    ensures
        !precedes(a, a),
        !(precedes(a, b) && precedes(b, a)),
        a != b ==> precedes(a, b) || precedes(b, a),
    decreases a.len(),
{
    if a.len() > 0 {
        order_is_total(a.skip(1), a.skip(1));
        if b.len() > 0 && a[0] == b[0] {
            order_is_total(a.skip(1), b.skip(1));
            if a.skip(1) == b.skip(1) {
                assert forall|i: int| 0 <= i < a.len() implies a[i] == b[i] by {
                    if i > 0 {
                        assert(a.skip(1)[i - 1] == b.skip(1)[i - 1]);
                    }
                }
                assert(a.len() == b.len());
                assert(a =~= b);
            }
        }
    } else if b.len() == 0 {
        assert(a =~= b);
    }
}

/// What comes before a text comes before all that follow it.
pub proof fn order_is_transitive(a: Seq<char>, b: Seq<char>, c: Seq<char>)
    requires
        precedes(a, b),
        precedes(b, c),
    ensures
        precedes(a, c),
    decreases a.len(),
{
    if a.len() > 0 && a[0] == b[0] && b[0] == c[0] {
        order_is_transitive(a.skip(1), b.skip(1), c.skip(1));
    }
}

/// A word in its place among words in order; a word that is there already is
/// not added.
pub open spec fn with_word(s: Seq<Seq<char>>, w: Seq<char>) -> Seq<Seq<char>>
    decreases s.len(),
{
    if s.len() == 0 {
        seq![w]
    } else if precedes(w, s.last()) {
        with_word(s.drop_last(), w).push(s.last())
    } else if s.last() == w {
        s
    } else {
        s.push(w)
    }
}

/// Every word once, in order.
pub open spec fn in_order(v: Seq<Seq<char>>) -> Seq<Seq<char>>
    decreases v.len(),
{
    if v.len() == 0 {
        Seq::empty()
    } else {
        with_word(in_order(v.drop_last()), v.last())
    }
}

/// Puts a word in its place among words in order.
pub fn add_word(s: &mut Vec<String>, w: &str)
    ensures
        text::views(final(s)@) == with_word(text::views(old(s)@), w@),
{
    let ghost all = text::views(s@);
    let n: usize = s.len();
    let mut k: usize = n;
    assert(all.take(n as int) =~= all);
    assert(with_word(all, w@) =~= with_word(all.take(n as int), w@) + all.skip(n as int));
    while k > 0 && str_precedes(w, &s[k - 1])
        invariant
            k <= n == s@.len(),
            s@ == old(s)@,
            all == text::views(s@),
            with_word(all, w@) == with_word(all.take(k as int), w@) + all.skip(k as int),
        decreases k,
    {
        assert(all.take(k as int).last() == s@[k - 1]@);
        assert(all.take(k as int).drop_last() =~= all.take(k - 1));
        assert(with_word(all.take(k - 1), w@).push(all[k - 1]) + all.skip(k as int) =~= with_word(
            all.take(k - 1),
            w@,
        ) + all.skip(k - 1));
        k -= 1;
    }
    if k > 0 {
        assert(all.take(k as int).last() == s@[k - 1]@);
        if text::str_eq(&s[k - 1], w) {
            assert(all.take(k as int) + all.skip(k as int) =~= all);
            return;
        }
    }
    let t = w.to_owned();
    s.insert(k, t);
    proof {
        assert(text::views(s@) =~= all.insert(k as int, w@));
        assert(all.take(k as int).push(w@) + all.skip(k as int) =~= all.insert(k as int, w@));
        if k == 0 {
            assert(all.take(0) =~= Seq::empty());
            assert(seq![w@] + all.skip(0) =~= all.insert(0, w@));
        }
    }
}

/// Every word once, in order.
pub fn sorted_words(v: &Vec<String>) -> (r: Vec<String>)
    ensures
        text::views(r@) == in_order(text::views(v@)),
{
    let ghost all = text::views(v@);
    let mut out: Vec<String> = Vec::new();
    let mut i: usize = 0;
    while i < v.len()
        invariant
            i <= v@.len(),
            all == text::views(v@),
            text::views(out@) == in_order(all.take(i as int)),
        decreases v@.len() - i,
    {
        assert(all.take(i + 1).drop_last() =~= all.take(i as int));
        assert(all.take(i + 1).last() == v@[i as int]@);
        add_word(&mut out, &v[i]);
        i += 1;
    }
    assert(all.take(all.len() as int) =~= all);
    out
}

/// Words in order, none twice.
pub open spec fn ascending(s: Seq<Seq<char>>) -> bool {
    forall|i: int, j: int| 0 <= i < j < s.len() ==> precedes(#[trigger] s[i], #[trigger] s[j])
}

proof fn with_word_facts(s: Seq<Seq<char>>, w: Seq<char>)
    requires
        ascending(s),
    ensures
        ascending(with_word(s, w)),
        forall|x: Seq<char>|
            #![trigger with_word(s, w).contains(x)]
            with_word(s, w).contains(x) <==> s.contains(x) || x == w,
    decreases s.len(),
{
    if s.len() == 0 {
        assert(with_word(s, w)[0] == w);
    } else if precedes(w, s.last()) {
        let d = s.drop_last();
        assert(ascending(d)) by {
            assert forall|i: int, j: int| 0 <= i < j < d.len() implies precedes(
                #[trigger] d[i],
                #[trigger] d[j],
            ) by {
                assert(d[i] == s[i] && d[j] == s[j]);
            }
        }
        with_word_facts(d, w);
        let r = with_word(d, w);
        assert forall|i: int| 0 <= i < r.len() implies precedes(#[trigger] r[i], s.last()) by {
            assert(r.contains(r[i]));
            if r[i] != w {
                let k = choose|k: int| 0 <= k < d.len() && d[k] == r[i];
                assert(d[k] == s[k]);
                assert(precedes(s[k], s[s.len() - 1]));
            }
        }
        assert forall|i: int, j: int| 0 <= i < j < r.push(s.last()).len() implies precedes(
            #[trigger] r.push(s.last())[i],
            #[trigger] r.push(s.last())[j],
        ) by {
            if j < r.len() {
                assert(r.push(s.last())[i] == r[i] && r.push(s.last())[j] == r[j]);
            } else {
                assert(r.push(s.last())[i] == r[i]);
            }
        }
        assert forall|x: Seq<char>|
            #![trigger with_word(s, w).contains(x)]
            with_word(s, w).contains(x) <==> s.contains(x) || x == w by {
            let t = r.push(s.last());
            if t.contains(x) {
                let k = choose|k: int| 0 <= k < t.len() && t[k] == x;
                if k < r.len() {
                    assert(r[k] == x);
                    assert(r.contains(x));
                    if x != w {
                        assert(d.contains(x));
                        let m = choose|m: int| 0 <= m < d.len() && d[m] == x;
                        assert(s[m] == x);
                    }
                } else {
                    assert(s[s.len() - 1] == x);
                }
            }
            if s.contains(x) || x == w {
                if x == w {
                    assert(r.contains(w));
                    let m = choose|m: int| 0 <= m < r.len() && r[m] == w;
                    assert(t[m] == w);
                } else {
                    let m = choose|m: int| 0 <= m < s.len() && s[m] == x;
                    if m < d.len() {
                        assert(d[m] == x);
                        assert(r.contains(x));
                        let q = choose|q: int| 0 <= q < r.len() && r[q] == x;
                        assert(t[q] == x);
                    } else {
                        assert(t[r.len() as int] == x);
                    }
                }
            }
        }
    } else if s.last() == w {
        assert(s[s.len() - 1] == w);
    } else {
        order_is_total(w, s.last());
        assert(precedes(s.last(), w));
        assert forall|i: int, j: int| 0 <= i < j < s.push(w).len() implies precedes(
            #[trigger] s.push(w)[i],
            #[trigger] s.push(w)[j],
        ) by {
            if j == s.len() {
                if i < s.len() - 1 {
                    assert(precedes(s[i], s[s.len() - 1]));
                    order_is_transitive(s[i], s.last(), w);
                }
            } else {
                assert(s.push(w)[i] == s[i] && s.push(w)[j] == s[j]);
            }
        }
        assert forall|x: Seq<char>|
            #![trigger with_word(s, w).contains(x)]
            with_word(s, w).contains(x) <==> s.contains(x) || x == w by {
            let t = s.push(w);
            if t.contains(x) {
                let k = choose|k: int| 0 <= k < t.len() && t[k] == x;
                if k < s.len() {
                    assert(s[k] == x);
                }
            }
            if s.contains(x) {
                let k = choose|k: int| 0 <= k < s.len() && s[k] == x;
                assert(t[k] == x);
            }
            assert(t[s.len() as int] == w);
        }
    }
}

/// Putting words in order keeps each word, drops repetitions and leaves them
/// ascending.
pub proof fn in_order_sorts(v: Seq<Seq<char>>)
    ensures
        ascending(in_order(v)),
        forall|x: Seq<char>|
            #![trigger in_order(v).contains(x)]
            in_order(v).contains(x) <==> v.contains(x),
    decreases v.len(),
{
    if v.len() > 0 {
        let d = v.drop_last();
        in_order_sorts(d);
        with_word_facts(in_order(d), v.last());
        assert forall|x: Seq<char>|
            #![trigger in_order(v).contains(x)]
            in_order(v).contains(x) <==> v.contains(x) by {
            if v.contains(x) {
                let k = choose|k: int| 0 <= k < v.len() && v[k] == x;
                if k < d.len() {
                    assert(d[k] == x);
                    assert(in_order(d).contains(x));
                }
            }
            if in_order(v).contains(x) {
                if x == v.last() {
                    assert(v[v.len() - 1] == x);
                } else {
                    assert(in_order(d).contains(x));
                    let k = choose|k: int| 0 <= k < d.len() && d[k] == x;
                    assert(v[k] == x);
                }
            }
        }
    }
}

} // verus!
